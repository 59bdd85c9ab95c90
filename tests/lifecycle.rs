use gmg::action::Action;
use gmg::error::ErrorKind;
use gmg::info::hook_target_of;
use gmg::repo::Repository;
use gmg::saga::{rename_next, RenameStage};
use gmg::user::User;

fn repo(name: &str) -> Repository {
    Repository::parse(name).unwrap()
}

fn run(cmd: &str) -> Action {
    Action::Run(cmd.to_owned())
}

fn walk(outcomes: &[bool]) -> Vec<RenameStage> {
    let mut s = RenameStage::CreateTarget;
    let mut seen = vec![s];
    for ok in outcomes {
        s = rename_next(s, *ok);
        seen.push(s);
    }
    seen
}

#[test]
fn rename_success_path() {
    assert_eq!(
        walk(&[true, true, true]),
        vec![
            RenameStage::CreateTarget,
            RenameStage::Migrate,
            RenameStage::DestroySource,
            RenameStage::Done
        ]
    );
}

#[test]
fn rename_rollback_path() {
    let seen = walk(&[true, false, false]);
    assert_eq!(
        seen,
        vec![
            RenameStage::CreateTarget,
            RenameStage::Migrate,
            RenameStage::RollBack,
            RenameStage::Failed
        ]
    );
    assert!(!seen.contains(&RenameStage::DestroySource));
    assert_eq!(walk(&[false]), vec![RenameStage::CreateTarget, RenameStage::Failed]);
}

#[test]
fn rename_checks_both_sides() {
    let a = repo("teamA/svc");
    let b = repo("teamA/service");
    assert!(matches!(a.rename(&b, false, false), Err(ErrorKind::NotFound(_))));
    assert!(matches!(a.rename(&b, true, true), Err(ErrorKind::AlreadyExists(_))));
    let plan = a.rename(&b, true, false).unwrap();
    assert_eq!(plan, b.create(false, true, None).unwrap());
    assert!(!plan.contains(&Action::InitialCommit));
}

#[test]
fn migration_regrants_every_user() {
    let a = repo("teamA/svc");
    let b = repo("teamA/service");
    let users = vec![User::parse("alice"), User::parse("bob")];
    let plan = a.replace_and_move(&b, &users);
    assert_eq!(plan[0], run("rm -rf /git/teamA/service.git/*"));
    assert_eq!(plan[1], run("cp -prf /git/teamA/svc.git/* /git/teamA/service.git/"));
    assert!(plan.contains(&run(r#"gpasswd -a "alice" "g_teamA/service""#)));
    assert!(plan.contains(&run(r#"gpasswd -a "bob" "g_teamA/service""#)));
    assert!(plan.contains(&run(r#"ln -sf "/git/teamA/service.git" "service""#)));
    assert_eq!(plan.len(), 2 + 9 + 2 * 9);
}

#[test]
fn destroy_revokes_before_removing_group() {
    let r = repo("teamA/svc");
    let users = vec![User::parse("alice")];
    let plan = r.destroy(true, &users).unwrap();
    let revoke_at = plan
        .iter()
        .position(|a| *a == Action::RunAny(r#"gpasswd -d "alice" "g_teamA/svc""#.to_owned()))
        .unwrap();
    let groupdel_at = plan.iter().position(|a| *a == run(r#"groupdel "g_teamA/svc""#)).unwrap();
    assert!(revoke_at < groupdel_at);
    assert_eq!(plan[groupdel_at + 1], Action::RemoveDirAll("/git/teamA/svc.git".to_owned()));
    assert_eq!(plan[groupdel_at + 2], Action::Chdir("/git".to_owned()));
    assert_eq!(
        plan[groupdel_at + 3],
        Action::RunAny(
            r#"find "teamA" -type d -not -path "*/*.git/*" -not -path "*/*.git" -exec rmdir {} \; > /dev/null 2>&1"#
                .to_owned()
        )
    );
    assert_eq!(plan[groupdel_at + 4], Action::RemoveDir("teamA".to_owned()));
    let flat = repo("svc").destroy(true, &vec![]).unwrap();
    assert_eq!(
        flat,
        vec![
            run(r#"groupdel "g_svc""#),
            Action::RemoveDirAll("/git/svc.git".to_owned()),
            Action::Chdir("/git".to_owned()),
        ]
    );
}

#[test]
fn protected_branches_from_config() {
    let text = "[core]\n\tbare = true\n[hooks \"branch.main\"]\n\tprotected = true\n[hooks \"branch.dev\"]\n\tprotected = false\n[hooks \"branch.release.1\"]\n\tprotected = true\n[hooks \"user.alice\"]\n\tmaintainer = true\n";
    let c = Repository::load_config(text.to_owned()).unwrap();
    assert_eq!(Repository::protected_branches(&c), vec!["main", "release.1"]);
    assert_eq!(Repository::maintainers(&c), vec!["alice"]);
    let after = "[hooks \"branch.main\"]\n[hooks \"user.alice\"]\n";
    let c = Repository::load_config(after.to_owned()).unwrap();
    assert!(Repository::protected_branches(&c).is_empty());
    assert!(Repository::maintainers(&c).is_empty());
}

#[test]
fn malformed_config_is_rejected() {
    assert!(matches!(
        Repository::load_config("[hooks \"branch.main\"\n".to_owned()),
        Err(ErrorKind::Validation(_))
    ));
}

#[test]
fn hook_sections() {
    assert_eq!(hook_target_of("hooks \"branch.main\"", "branch"), Some("main".to_owned()));
    assert_eq!(hook_target_of("hooks \"user.alice\"", "user"), Some("alice".to_owned()));
    assert_eq!(hook_target_of("hooks \"user.alice\"", "branch"), None);
    assert_eq!(hook_target_of("hooks \"branch\"", "branch"), None);
    assert_eq!(hook_target_of("core", "branch"), None);
    assert_eq!(hook_target_of("hooks", "branch"), None);
}

#[test]
fn end_to_end_scenario() {
    let svc = repo("teamA/svc");
    let service = repo("teamA/service");
    let alice = User::parse("alice");
    // create, then grant
    assert!(svc.create(false, false, None).is_ok());
    assert!(alice.grant(&svc, true).is_ok());
    let names = |out: &str| -> Vec<String> {
        alice.repos(out).unwrap().iter().map(|r| r.name().to_owned()).collect()
    };
    assert_eq!(names("alice : alice g_teamA/svc\n"), vec!["teamA/svc"]);
    // rename: create target, migrate, destroy source
    assert!(svc.rename(&service, true, false).is_ok());
    let users = svc.users("g_teamA/svc:x:1001:alice\n");
    let migrate = svc.replace_and_move(&service, &users);
    assert!(migrate.contains(&run(r#"gpasswd -a "alice" "g_teamA/service""#)));
    let drop_source = svc.destroy(true, &users).unwrap();
    assert!(drop_source.contains(&Action::RunAny(r#"gpasswd -d "alice" "g_teamA/svc""#.to_owned())));
    assert_eq!(names("alice : alice g_teamA/service\n"), vec!["teamA/service"]);
    // destroy the renamed repository
    let users = service.users("g_teamA/service:x:1002:alice\n");
    let gone = service.destroy(true, &users).unwrap();
    assert!(gone.contains(&Action::RunAny(r#"gpasswd -d "alice" "g_teamA/service""#.to_owned())));
    assert!(names("alice : alice\n").is_empty());
    assert!(matches!(service.must_exist(false), Err(ErrorKind::NotFound(_))));
}
