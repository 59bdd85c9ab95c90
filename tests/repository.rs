use gmg::action::Action;
use gmg::error::ErrorKind;
use gmg::repo::{rci_trigger_url, Repository};

fn repo(name: &str) -> Repository {
    Repository::parse(name).unwrap()
}

fn run(cmd: &str) -> Action {
    Action::Run(cmd.to_owned())
}

#[test]
fn valid_names_round_trip() {
    for n in ["svc", "teamA/svc", "a/b/c", "x.gitx", "gitrepo", "abcdefghijabcdefghijabcdefghij"] {
        let r = repo(n);
        assert_eq!(r.name(), n);
    }
}

#[test]
fn derived_names_and_paths() {
    let r = repo("teamA/svc");
    assert_eq!(r.group(), "g_teamA/svc");
    assert_eq!(r.path(), "/git/teamA/svc.git");
    assert_eq!(r.path_as_str(), "/git/teamA/svc.git");
    assert_eq!(r.short_name(), "svc");
    assert_eq!(r.top_dir(), "teamA");
    assert_eq!(r.parent_dir(), Some("teamA".to_owned()));
    assert_eq!(r.config_path(), "/git/teamA/svc.git/config");
    let flat = repo("svc");
    assert_eq!(flat.short_name(), "svc");
    assert_eq!(flat.top_dir(), "svc");
    assert_eq!(flat.parent_dir(), None);
    let deep = repo("a/b/c");
    assert_eq!(deep.short_name(), "c");
    assert_eq!(deep.top_dir(), "a");
    assert_eq!(deep.parent_dir(), Some("a/b".to_owned()));
}

#[test]
fn invalid_names_are_rejected() {
    for n in [
        "/abs",
        "svc.git",
        "a/b.git",
        "a.git/b",
        ".git/x",
        "a/.git/b",
        "abcdefghijabcdefghijabcdefghijk",
    ] {
        assert!(matches!(Repository::parse(n), Err(ErrorKind::Validation(_))), "{}", n);
    }
}

#[test]
fn length_counts_characters() {
    let thirty = "é".repeat(30);
    assert!(Repository::parse(&thirty).is_ok());
    let more = "é".repeat(31);
    assert!(matches!(Repository::parse(&more), Err(ErrorKind::Validation(_))));
}

#[test]
fn missing_repository_is_not_found() {
    let r = repo("svc");
    assert!(r.must_exist(true).is_ok());
    assert!(matches!(r.must_exist(false), Err(ErrorKind::NotFound(_))));
    assert!(matches!(r.set(false, "a.b", "c"), Err(ErrorKind::NotFound(_))));
    assert!(matches!(r.unset(false, "a.b"), Err(ErrorKind::NotFound(_))));
    assert!(matches!(r.fix(false, false), Err(ErrorKind::NotFound(_))));
    assert!(matches!(r.cleanup(false), Err(ErrorKind::NotFound(_))));
    assert!(matches!(r.check(false), Err(ErrorKind::NotFound(_))));
    assert!(matches!(r.archive(false), Err(ErrorKind::NotFound(_))));
    assert!(matches!(r.destroy(false, &vec![]), Err(ErrorKind::NotFound(_))));
    assert!(matches!(r.users_query(false), Err(ErrorKind::NotFound(_))));
    assert!(matches!(r.branches_query(false), Err(ErrorKind::NotFound(_))));
}

#[test]
fn set_and_unset_plans() {
    let r = repo("svc");
    assert_eq!(
        r.set(true, "gmg.version", "1.0").unwrap(),
        vec![
            run(r#"git config -f "/git/svc.git/config" gmg.version "1.0""#),
            Action::Chmod("/git/svc.git/config".to_owned(), 0o644),
        ]
    );
    assert_eq!(
        r.unset(true, "hooks.branch.dev.protected").unwrap(),
        vec![
            run(r#"git config -f "/git/svc.git/config" --unset hooks.branch.dev.protected"#),
            Action::Chmod("/git/svc.git/config".to_owned(), 0o644),
        ]
    );
}

#[test]
fn protect_and_unprotect_use_one_key() {
    let r = repo("svc");
    let p = r.protect(true, "main").unwrap();
    let u = r.unprotect(true, "main").unwrap();
    assert_eq!(p[0], run(r#"git config -f "/git/svc.git/config" hooks.branch.main.protected "true""#));
    assert_eq!(u[0], run(r#"git config -f "/git/svc.git/config" --unset hooks.branch.main.protected"#));
}

#[test]
fn fix_plan() {
    let r = repo("svc");
    let plan = r.fix(true, false).unwrap();
    assert_eq!(
        plan,
        vec![
            run(r"find /git/svc.git -type d -exec chmod -R 002775 {} \;"),
            run(r"find /git/svc.git -type f -exec chmod -R 000664 {} \;"),
            Action::Chmod("/git/svc.git".to_owned(), 0o2770),
            run(r#"chmod -R 000755 "/git/svc.git/hooks""#),
            run(r#"chown -R "git:g_svc" "/git/svc.git""#),
            run(r#"chown "root:g_svc" "/git/svc.git/config""#),
            run(r#"chown "root:g_svc" "/git/svc.git/description""#),
            Action::Chmod("/git/svc.git/config".to_owned(), 0o644),
            Action::Chmod("/git/svc.git/description".to_owned(), 0o644),
        ]
    );
    let full = r.fix(true, true).unwrap();
    assert_eq!(full.len(), 9 + 3 + 9);
    assert_eq!(full[9], Action::Chdir("/git/svc.git".to_owned()));
    assert_eq!(full[10], run("git reflog expire --expire=now --all"));
    assert_eq!(full[11], run("git gc --prune=now"));
}

#[test]
fn fix_twice_plans_the_same() {
    let r = repo("teamA/svc");
    assert_eq!(r.fix(true, false).unwrap(), r.fix(true, false).unwrap());
}

#[test]
fn check_is_advisory() {
    let r = repo("svc");
    assert_eq!(
        r.check(true).unwrap(),
        vec![Action::Chdir("/git/svc.git".to_owned()), Action::Advisory("git fsck".to_owned())]
    );
}

#[test]
fn archive_plan() {
    let r = repo("svc");
    assert_eq!(
        r.archive(true).unwrap(),
        vec![run("groupdel g_svc"), Action::Chmod("/git/svc.git".to_owned(), 0o700)]
    );
}

#[test]
fn create_on_existing_fails() {
    let r = repo("svc");
    assert!(matches!(r.create(true, false, None), Err(ErrorKind::AlreadyExists(_))));
    assert!(matches!(r.create(true, true, None), Err(ErrorKind::AlreadyExists(_))));
}

#[test]
fn create_init_only_has_no_commit() {
    let r = repo("teamA/svc");
    let plan = r.create(false, true, None).unwrap();
    assert_eq!(plan.iter().filter(|a| **a == Action::InitialCommit).count(), 0);
    assert_eq!(plan[0], Action::CreateDirAll("/git/teamA/svc.git".to_owned()));
    assert_eq!(plan[1], run("groupadd g_teamA/svc"));
    assert_eq!(plan[2], Action::Chdir("/git".to_owned()));
    assert_eq!(plan[3], run(r#"git init -q -b "main" --bare --shared=group "teamA/svc.git""#));
    assert_eq!(plan.len(), 4 + 9 + 2 + 2);
}

#[test]
fn create_full_has_one_commit() {
    let r = repo("teamA/svc");
    let plan = r.create(false, false, Some("service")).unwrap();
    assert_eq!(plan.iter().filter(|a| **a == Action::InitialCommit).count(), 1);
    assert_eq!(plan[17], Action::InitialCommit);
    assert_eq!(
        plan[18],
        Action::WriteFile("/git/teamA/svc.git/description".to_owned(), "service".to_owned())
    );
    assert_eq!(
        plan[19],
        run(r#"git config -f "/git/teamA/svc.git/config" hooks.branch.main.protected "true""#)
    );
    let bare = r.create(false, false, None).unwrap();
    assert_eq!(
        bare[18],
        Action::WriteFile(
            "/git/teamA/svc.git/description".to_owned(),
            "Unnamed repository;".to_owned()
        )
    );
}

#[test]
fn initial_commit_plan() {
    let r = repo("teamA/svc");
    assert_eq!(
        r.initial_commit("/tmp/scratch"),
        vec![
            Action::Chdir("/tmp/scratch".to_owned()),
            run(r#"git clone --quiet "/git/teamA/svc.git" > /dev/null 2>&1"#),
            Action::Chdir("svc".to_owned()),
            Action::WriteFile("README.md".to_owned(), "# svc".to_owned()),
            run("git add README.md"),
            run("git commit --quiet -a -m init"),
            run(r#"git push --quiet origin "main""#),
            Action::Chdir("/git/teamA/svc.git".to_owned()),
        ]
    );
}

#[test]
fn description_sentinel() {
    assert_eq!(Repository::read_description("Unnamed repository; edit this"), None);
    assert_eq!(Repository::read_description("Unnamed repository;"), None);
    assert_eq!(Repository::read_description("hello"), Some("hello".to_owned()));
    assert_eq!(Repository::read_description("  hello world \n"), Some("hello world".to_owned()));
    assert_eq!(Repository::read_description("\u{3000}x\u{a0}"), Some("x".to_owned()));
}

#[test]
fn set_description_updates_catalogs() {
    let r = repo("svc");
    let users = vec![gmg::user::User::parse("alice"), gmg::user::User::parse("bob")];
    assert_eq!(
        r.set_description(true, Some("hello"), &users).unwrap(),
        vec![
            Action::WriteFile("/git/svc.git/description".to_owned(), "hello".to_owned()),
            Action::UpdateCatalog("alice".to_owned()),
            Action::UpdateCatalog("bob".to_owned()),
        ]
    );
    let none = r.set_description(true, None, &vec![]).unwrap();
    assert_eq!(
        none,
        vec![Action::WriteFile("/git/svc.git/description".to_owned(), "Unnamed repository;".to_owned())]
    );
    assert!(matches!(r.set_description(false, None, &vec![]), Err(ErrorKind::NotFound(_))));
}

#[test]
fn users_from_group_entry() {
    let r = repo("svc");
    let users = r.users("g_svc:x:1001:carol,alice,,bob\n");
    let logins: Vec<&str> = users.iter().map(|u| u.login()).collect();
    assert_eq!(logins, vec!["alice", "bob", "carol"]);
    assert!(r.users("").is_empty());
    assert!(r.users("g_svc:x:1001:\n").is_empty());
    assert_eq!(
        r.users_query(true).unwrap(),
        vec![Action::RunAny(r#"grep "^g_svc:" /etc/group"#.to_owned())]
    );
}

#[test]
fn branches_from_listing() {
    let r = repo("svc");
    assert_eq!(r.branches("  dev\n* main\n  feature/x\r\n"), vec!["dev", "feature/x", "main"]);
    assert!(r.branches("").is_empty());
    assert_eq!(
        r.branches_query(true).unwrap(),
        vec![Action::Chdir("/git/svc.git".to_owned()), run("git branch")]
    );
}

#[test]
fn listing_of_all_repositories() {
    let out = "./t/b.git\n./a.git\n./notes\n./x/.git/y\n";
    let all = Repository::list_all(out).unwrap();
    let names: Vec<&str> = all.iter().map(|r| r.name()).collect();
    assert_eq!(names, vec!["a", "t/b"]);
    assert!(matches!(Repository::list_all("./a.git.git\n"), Err(ErrorKind::Validation(_))));
    assert_eq!(
        Repository::list_query(),
        vec![Action::Chdir("/git".to_owned()), run(r#"find . -name "*.git" -type d"#)]
    );
}

#[test]
fn rci_url_normalisation() {
    assert_eq!(rci_trigger_url("http://ci.local//", "build"), "http://ci.local/job/build/trigger");
    assert_eq!(rci_trigger_url("http://ci.local", "b"), "http://ci.local/job/b/trigger");
    assert_eq!(rci_trigger_url("", "b"), "/job/b/trigger");
}

#[test]
fn rci_set_and_unset() {
    let r = repo("svc");
    let plan = r.rci_set(true, "main", "http://ci/", "job1", "s3").unwrap();
    assert_eq!(plan.len(), 4);
    assert_eq!(
        plan[0],
        run(r#"git config -f "/git/svc.git/config" hooks.branch.main.rci.url "http://ci/job/job1/trigger""#)
    );
    assert_eq!(plan[2], run(r#"git config -f "/git/svc.git/config" hooks.branch.main.rci.secret "s3""#));
    let un = r.rci_unset(true, "main").unwrap();
    assert_eq!(un[0], run(r#"git config -f "/git/svc.git/config" --unset hooks.branch.main.rci.url"#));
    assert_eq!(un[2], run(r#"git config -f "/git/svc.git/config" --unset hooks.branch.main.rci.secret"#));
    assert!(matches!(r.rci_unset(false, "main"), Err(ErrorKind::NotFound(_))));
}

#[test]
fn rejection_messages() {
    let msg = |n: &str| match Repository::parse(n) {
        Err(ErrorKind::Validation(m)) => m,
        other => panic!("{:?}", other),
    };
    assert_eq!(msg("/x"), "repository name can not start with /");
    assert_eq!(msg("x/.git/y"), "repository name can not end with or contain .git in path chunks");
    assert_eq!(msg("x.git"), "repository name can not end with or contain .git in path chunks");
    assert_eq!(msg(&"a".repeat(31)), "repository name is longer than 30 chars");
    assert!(Repository::parse(&"a".repeat(30)).is_ok());
    assert_eq!(
        repo("teamA/svc").must_exist(false),
        Err(ErrorKind::NotFound("Repository doesn't exist: teamA/svc".to_owned()))
    );
}
