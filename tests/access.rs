use gmg::action::Action;
use gmg::error::{command_outcome, ErrorKind};
use gmg::repo::Repository;
use gmg::user::{catalog_text, User};

fn repo(name: &str) -> Repository {
    Repository::parse(name).unwrap()
}

fn run(cmd: &str) -> Action {
    Action::Run(cmd.to_owned())
}

#[test]
fn user_derived_values() {
    let u = User::parse("alice");
    assert_eq!(u.login(), "alice");
    assert_eq!(u.home(), "/home/alice");
    assert_eq!(u.catalog_path(), "/git/.config/cgit/alice.cgitrc");
    assert_eq!(u.must_exist(), run(r#"id "alice""#));
    assert_eq!(u.update(), vec![Action::UpdateCatalog("alice".to_owned())]);
}

#[test]
fn user_create_plan() {
    let u = User::parse("alice");
    assert_eq!(
        u.create("Alice A", "/usr/bin/git-shell", "ssh-ed25519 AAAA"),
        vec![
            run(r#"useradd -m --shell "/usr/bin/git-shell" "alice""#),
            run(r#"chfn -f "Alice A" "alice""#),
            Action::Chmod("/home/alice".to_owned(), 0o700),
            Action::Chdir("/home/alice".to_owned()),
            Action::CreateDirAll(".ssh".to_owned()),
            Action::WriteFile(".ssh/authorized_keys".to_owned(), "ssh-ed25519 AAAA".to_owned()),
            Action::Chmod(".ssh".to_owned(), 0o700),
            run(r#"chown -R "alice" .ssh"#),
            Action::UpdateCatalog("alice".to_owned()),
        ]
    );
}

#[test]
fn user_destroy_keeps_home() {
    let u = User::parse("alice");
    let plan = u.destroy();
    assert_eq!(
        plan,
        vec![
            run(r#"id "alice""#),
            run(r#"userdel "alice""#),
            Action::RemoveFile("/git/.config/cgit/alice.cgitrc".to_owned()),
        ]
    );
    assert!(!plan.iter().any(|a| matches!(a, Action::RemoveDirAll(_))));
}

#[test]
fn grant_nested_repository() {
    let u = User::parse("alice");
    let r = repo("teamA/svc");
    assert_eq!(
        u.grant(&r, true).unwrap(),
        vec![
            run(r#"id "alice""#),
            run(r#"gpasswd -a "alice" "g_teamA/svc""#),
            Action::Chdir("/home/alice".to_owned()),
            Action::CreateDirAll("teamA".to_owned()),
            run(r#"chown -R "alice" "teamA""#),
            Action::Chdir("teamA".to_owned()),
            Action::RemoveFile("svc".to_owned()),
            run(r#"ln -sf "/git/teamA/svc.git" "svc""#),
            Action::UpdateCatalog("alice".to_owned()),
        ]
    );
}

#[test]
fn grant_flat_repository() {
    let u = User::parse("bob");
    let r = repo("svc");
    assert_eq!(
        u.grant(&r, true).unwrap(),
        vec![
            run(r#"id "bob""#),
            run(r#"gpasswd -a "bob" "g_svc""#),
            Action::Chdir("/home/bob".to_owned()),
            Action::RemoveFile("svc".to_owned()),
            run(r#"ln -sf "/git/svc.git" "svc""#),
            Action::UpdateCatalog("bob".to_owned()),
        ]
    );
    assert!(matches!(u.grant(&r, false), Err(ErrorKind::NotFound(_))));
}

#[test]
fn revoke_undoes_grant() {
    let u = User::parse("alice");
    let r = repo("teamA/svc");
    let revoke = u.revoke(&r);
    assert_eq!(
        revoke,
        vec![
            run(r#"id "alice""#),
            Action::RunAny(r#"gpasswd -d "alice" "g_teamA/svc""#.to_owned()),
            Action::Chdir("/home/alice".to_owned()),
            Action::RemoveFile("teamA/svc".to_owned()),
            Action::RunAny(r#"find "teamA" -type d -exec rmdir {} \; > /dev/null 2>&1"#.to_owned()),
            Action::UpdateCatalog("alice".to_owned()),
        ]
    );
    // the link that grant makes under the parent directory is the path revoke removes
    let grant = u.grant(&r, true).unwrap();
    assert_eq!(grant[5], Action::Chdir("teamA".to_owned()));
    assert_eq!(grant[6], Action::RemoveFile("svc".to_owned()));
    // membership is added to and removed from the same group
    assert_eq!(grant[1], run(r#"gpasswd -a "alice" "g_teamA/svc""#));
}

#[test]
fn maintainer_marks() {
    let u = User::parse("alice");
    let r = repo("svc");
    assert_eq!(
        u.maintainer_set(&r, true).unwrap(),
        vec![
            run(r#"id "alice""#),
            run(r#"git config -f "/git/svc.git/config" hooks.user.alice.maintainer "true""#),
            Action::Chmod("/git/svc.git/config".to_owned(), 0o644),
        ]
    );
    assert_eq!(
        u.maintainer_unset(&r, true).unwrap(),
        vec![
            run(r#"git config -f "/git/svc.git/config" --unset hooks.user.alice.maintainer"#),
            Action::Chmod("/git/svc.git/config".to_owned(), 0o644),
        ]
    );
    assert!(matches!(u.maintainer_set(&r, false), Err(ErrorKind::NotFound(_))));
}

#[test]
fn repos_from_groups_output() {
    let u = User::parse("alice");
    let rs = u.repos("alice : alice g_teamA/svc developers g_b\n").unwrap();
    let names: Vec<&str> = rs.iter().map(|r| r.name()).collect();
    assert_eq!(names, vec!["b", "teamA/svc"]);
    assert!(u.repos("alice : alice\n").unwrap().is_empty());
    assert!(u.repos("").unwrap().is_empty());
    assert!(matches!(u.repos("alice : g_/bad\n"), Err(ErrorKind::Validation(_))));
    assert_eq!(
        u.repos_query(),
        vec![run(r#"id "alice""#), run(r#"groups "alice""#)]
    );
}

#[test]
fn catalog_generation() {
    let entries = vec![
        (repo("a"), Some("first".to_owned())),
        (repo("t/b"), None),
    ];
    let template = "css=/cgit.css\nrepo.url=stale\nrepo.path=/old\nroot-title=git\n";
    assert_eq!(
        catalog_text(template, &entries),
        "css=/cgit.css\nroot-title=git\nrepo.url=a\nrepo.path=/git/a.git\nrepo.desc=first\nrepo.url=t/b\nrepo.path=/git/t/b.git\n"
    );
    assert_eq!(catalog_text("", &vec![]), "");
    let u = User::parse("alice");
    assert_eq!(
        u.update_cgit("x=1", &vec![]),
        vec![Action::WriteFile("/git/.config/cgit/alice.cgitrc".to_owned(), "x=1\n".to_owned())]
    );
}

#[test]
fn command_outcomes() {
    assert_eq!(command_outcome("out".to_owned(), 0, true), Ok("out".to_owned()));
    assert_eq!(command_outcome("out".to_owned(), 3, false), Ok("out".to_owned()));
    assert_eq!(
        command_outcome("out".to_owned(), 3, true),
        Err(ErrorKind::Command { output: "out".to_owned(), code: 3 })
    );
}

#[test]
fn hosted_accounts_sorted_by_login() {
    let out = "bob:x:1002:1002:Bob B,,,:/home/bob:/usr/bin/git-shell\nalice:x:1001:1001:Alice:/home/alice:/usr/bin/git-shell\nbroken:x\n";
    let all = User::list_all(out);
    let got: Vec<(&str, &str)> = all.iter().map(|(u, n)| (u.login(), n.as_str())).collect();
    assert_eq!(got, vec![("alice", "Alice"), ("bob", "Bob B")]);
    assert!(User::list_all("").is_empty());
    assert_eq!(User::list_query(), vec![Action::RunAny("grep /git-shell$ /etc/passwd".to_owned())]);
}
