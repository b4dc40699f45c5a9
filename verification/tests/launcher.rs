use pumpkin_gui::config::Connection;
use pumpkin_gui::launcher::{
    attach_endpoint, is_managed, plan_from_detected, plan_from_saved, shutdown_step, status,
    Launcher, Plan, ShutdownStep, Status, CONNECT_DEADLINE_MS,
};
use pumpkin_gui::tabs::setup::{needs_setup, parts, shows_progress, HEADLINE_SETUP};

#[test]
fn the_environment_wins_over_the_flag() {
    assert_eq!(attach_endpoint(Some("env".into()), Some("cli".into())), Some("env".to_owned()));
    assert_eq!(attach_endpoint(None, Some("cli".into())), Some("cli".to_owned()));
    assert_eq!(attach_endpoint(None, None), None);
}

#[test]
fn plans_follow_the_saved_choice() {
    match plan_from_saved(Connection::Managed { binary_path: "/srv/pumpkin".into() }) {
        Plan::Spawn { binary_path, save } => {
            assert_eq!(binary_path, "/srv/pumpkin");
            assert!(!save);
        }
        other => panic!("unexpected {other:?}"),
    }
    match plan_from_saved(Connection::Attach { endpoint: "/tmp/s".into() }) {
        Plan::Attach(e) => assert_eq!(e, "/tmp/s"),
        other => panic!("unexpected {other:?}"),
    }
    match plan_from_detected(Some("./pumpkin".into())) {
        Plan::Spawn { binary_path, save } => {
            assert_eq!(binary_path, "./pumpkin");
            assert!(save);
        }
        other => panic!("unexpected {other:?}"),
    }
    assert!(matches!(plan_from_detected(None), Plan::NeedsSetup));
}

#[test]
fn statuses_say_what_is_happening() {
    let mut l = Launcher::new();
    assert!(matches!(status(&l), Status::Resolving));
    l.begin_spawn("/srv/pumpkin");
    assert!(is_managed(&l));
    assert!(matches!(status(&l), Status::Launching(m) if m == "Starting /srv/pumpkin…"));
    l.begin_connect("/tmp/x.sock");
    assert!(is_managed(&l));
    assert!(matches!(status(&l), Status::Connecting(m) if m == "Connecting to /tmp/x.sock…"));
    assert!(l.attempt_failed("/tmp/x.sock", "refused", 200));
    assert!(!l.attempt_failed("/tmp/x.sock", "refused", CONNECT_DEADLINE_MS));
    assert!(matches!(status(&l), Status::Error(m) if m == "Could not connect to /tmp/x.sock: refused"));
    l.spawn_failed("/srv/pumpkin", "not found");
    assert!(matches!(status(&l), Status::Error(m) if m == "Could not start /srv/pumpkin: not found"));
    l.begin_attach("/tmp/y");
    assert!(!is_managed(&l));
    l.connected();
    assert!(matches!(status(&l), Status::Connected));
    l.needs_setup();
    assert!(matches!(status(&l), Status::NeedsSetup));
}

#[test]
fn shutdown_waits_then_kills() {
    assert_eq!(shutdown_step(0, true), ShutdownStep::Exited);
    assert_eq!(shutdown_step(0, false), ShutdownStep::Wait);
    assert_eq!(shutdown_step(48, false), ShutdownStep::Wait);
    assert_eq!(shutdown_step(49, false), ShutdownStep::Kill);
}

#[test]
fn the_setup_screen_reads_the_status() {
    let (h, m, failed) = parts(&Status::Resolving);
    assert_eq!((h, m.as_str(), failed), (HEADLINE_SETUP, "Looking for a server…", false));
    let (_, m, failed) = parts(&Status::Error("boom".into()));
    assert_eq!((m.as_str(), failed), ("boom", true));
    assert!(shows_progress(&Status::Connecting("Connecting to x…".into())));
    assert!(!shows_progress(&Status::Error("boom".into())));
    assert!(!shows_progress(&Status::NeedsSetup));
    assert!(needs_setup(&Status::NeedsSetup));
    assert!(!needs_setup(&Status::Connected));
}
