use skype_rs::database::{is_sqlite_file, sqlite_file_path, ConnectAction, ConnectEvent, ConnectPlan};
use skype_rs::error::AppError;

fn protocol(msg: &str) -> AppError {
    AppError::Protocol(msg.to_string())
}

fn finish_error(action: ConnectAction) -> String {
    match action {
        ConnectAction::Finish(Err(AppError::Protocol(m))) => m,
        _ => panic!("expected a finish with a protocol error"),
    }
}

#[test]
fn sqlite_file_path_cases() {
    assert_eq!(sqlite_file_path("sqlite::memory:"), None);
    assert_eq!(sqlite_file_path("sqlite://:memory:"), None);
    assert_eq!(sqlite_file_path("sqlite://./data/skype-rs.db"), Some("./data/skype-rs.db".to_string()));
    assert_eq!(sqlite_file_path("sqlite:/tmp/x/node.db"), Some("/tmp/x/node.db".to_string()));
    assert_eq!(sqlite_file_path("sqlite://db.sqlite?mode=rwc&cache=shared"), Some("db.sqlite".to_string()));
    assert_eq!(sqlite_file_path("sqlite://?mode=memory"), None);
    assert_eq!(sqlite_file_path("sqlite:"), None);
    assert_eq!(sqlite_file_path("postgres://localhost/db"), None);
    assert_eq!(sqlite_file_path("sqlite://skype-rs.db"), Some("skype-rs.db".to_string()));
}

#[test]
fn sqlite_header_check() {
    assert!(!is_sqlite_file(b""));
    assert!(!is_sqlite_file(b"this is not sqlite"));
    assert!(!is_sqlite_file(b"SQLite format 3"));
    assert!(is_sqlite_file(b"SQLite format 3\0"));
    let mut page = b"SQLite format 3\0".to_vec();
    page.extend_from_slice(&[0u8; 100]);
    assert!(is_sqlite_file(&page));
}

#[test]
fn memory_url_opens_directly() {
    let (mut plan, action) = ConnectPlan::start("sqlite::memory:");
    assert!(matches!(action, ConnectAction::Open));
    let next = plan.step(ConnectEvent::Opened);
    assert!(matches!(next, ConnectAction::Finish(Ok(()))));
    assert!(plan.stage_is_finished());
}

#[test]
fn memory_url_failure_is_not_retried() {
    let (mut plan, _) = ConnectPlan::start("sqlite::memory:");
    assert_eq!(finish_error(plan.step(ConnectEvent::Failed(protocol("boom")))), "boom");
}

#[test]
fn invalid_file_is_reset_before_opening() {
    let (mut plan, action) = ConnectPlan::start("sqlite:///tmp/bad.db");
    match action {
        ConnectAction::EnsureParentDir { path } => assert_eq!(path, "/tmp/bad.db"),
        _ => panic!("expected the parent directory first"),
    }
    match plan.step(ConnectEvent::Done) {
        ConnectAction::InspectFile { path } => assert_eq!(path, "/tmp/bad.db"),
        _ => panic!("expected an inspection"),
    }
    match plan.step(ConnectEvent::FileContents(b"this is not sqlite".to_vec())) {
        ConnectAction::ResetFile { path } => assert_eq!(path, "/tmp/bad.db"),
        _ => panic!("expected a reset"),
    }
    assert!(matches!(plan.step(ConnectEvent::Done), ConnectAction::Open));
    assert!(matches!(plan.step(ConnectEvent::Opened), ConnectAction::Finish(Ok(()))));
}

#[test]
fn missing_or_valid_file_opens_directly() {
    let (mut plan, _) = ConnectPlan::start("sqlite:nested/node.db");
    plan.step(ConnectEvent::Done);
    assert!(matches!(plan.step(ConnectEvent::FileMissing), ConnectAction::Open));

    let (mut plan, _) = ConnectPlan::start("sqlite:nested/node.db");
    plan.step(ConnectEvent::Done);
    assert!(matches!(plan.step(ConnectEvent::FileContents(b"SQLite format 3\0rest".to_vec())), ConnectAction::Open));
}

#[test]
fn failed_open_retries_once_and_reports_first_error() {
    let (mut plan, _) = ConnectPlan::start("sqlite://x.db");
    plan.step(ConnectEvent::Done);
    assert!(matches!(plan.step(ConnectEvent::FileMissing), ConnectAction::Open));
    match plan.step(ConnectEvent::Failed(protocol("first"))) {
        ConnectAction::ResetFile { path } => assert_eq!(path, "x.db"),
        _ => panic!("expected a reset before the retry"),
    }
    assert!(plan.expects(&ConnectEvent::Done));
    assert!(!plan.expects(&ConnectEvent::Opened));
    assert!(matches!(plan.step(ConnectEvent::Done), ConnectAction::Open));
    assert_eq!(finish_error(plan.step(ConnectEvent::Failed(protocol("second")))), "first");
    assert!(!plan.expects(&ConnectEvent::Failed(protocol("late"))));
}

#[test]
fn failed_reset_before_retry_reports_reset_error() {
    let (mut plan, _) = ConnectPlan::start("sqlite://x.db");
    plan.step(ConnectEvent::Done);
    plan.step(ConnectEvent::FileMissing);
    plan.step(ConnectEvent::Failed(protocol("first")));
    assert_eq!(finish_error(plan.step(ConnectEvent::Failed(protocol("io")))), "io");
}

#[test]
fn retry_success_opens() {
    let (mut plan, _) = ConnectPlan::start("sqlite://x.db");
    plan.step(ConnectEvent::Done);
    plan.step(ConnectEvent::FileMissing);
    plan.step(ConnectEvent::Failed(protocol("first")));
    plan.step(ConnectEvent::Done);
    assert!(matches!(plan.step(ConnectEvent::Opened), ConnectAction::Finish(Ok(()))));
}

#[test]
fn parent_dir_failure_ends_plan() {
    let (mut plan, _) = ConnectPlan::start("sqlite://a/b.db");
    assert_eq!(finish_error(plan.step(ConnectEvent::Failed(protocol("mkdir")))), "mkdir");
}

#[test]
fn nested_file_path_gets_parent_directory_first() {
    let (mut plan, action) = ConnectPlan::start("sqlite:/tmp/skype-dir/nested/node.db");
    match action {
        ConnectAction::EnsureParentDir { path } => assert_eq!(path, "/tmp/skype-dir/nested/node.db"),
        _ => panic!("expected the parent directory first"),
    }
    match plan.step(ConnectEvent::Done) {
        ConnectAction::InspectFile { path } => assert_eq!(path, "/tmp/skype-dir/nested/node.db"),
        _ => panic!("expected an inspection"),
    }
    assert!(matches!(plan.step(ConnectEvent::FileMissing), ConnectAction::Open));
    assert!(matches!(plan.step(ConnectEvent::Opened), ConnectAction::Finish(Ok(()))));
}

#[test]
fn in_memory_url_with_parameters_is_not_a_file() {
    assert_eq!(sqlite_file_path("sqlite::memory:?cache=shared"), None);
    assert_eq!(sqlite_file_path("sqlite://:memory:?mode=memory"), None);
    assert_eq!(sqlite_file_path("sqlite::memory:x"), Some(":memory:x".to_string()));
}

#[test]
fn unreadable_file_is_reset() {
    let (mut plan, _) = ConnectPlan::start("sqlite://locked.db");
    plan.step(ConnectEvent::Done);
    match plan.step(ConnectEvent::Failed(protocol("permission denied"))) {
        ConnectAction::ResetFile { path } => assert_eq!(path, "locked.db"),
        _ => panic!("expected a reset"),
    }
    assert!(matches!(plan.step(ConnectEvent::Done), ConnectAction::Open));
    assert!(matches!(plan.step(ConnectEvent::Opened), ConnectAction::Finish(Ok(()))));
}

#[test]
fn connect_options_follow_sqlx() {
    let options = skype_rs::database::sqlite_connect_options("sqlite::memory:").expect("accepted");
    assert!(options.creates_missing());
    assert_eq!(options.source(), "sqlite::memory:");
    let options = skype_rs::database::sqlite_connect_options("sqlite://./data/skype-rs.db").expect("accepted");
    assert_eq!(options.source(), "sqlite://./data/skype-rs.db");
    assert!(skype_rs::database::sqlite_connect_options("sqlite://./data/skype-rs.db").is_ok());
    assert!(skype_rs::database::sqlite_connect_options("sqlite::memory:?cache=shared").is_ok());
    assert!(matches!(
        skype_rs::database::sqlite_connect_options("sqlite://x.db?mode=bogus"),
        Err(AppError::Db(_))
    ));
    assert!(matches!(
        skype_rs::database::sqlite_connect_options("sqlite://x.db?color=blue"),
        Err(AppError::Db(_))
    ));
}
