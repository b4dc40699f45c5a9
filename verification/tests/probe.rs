use pumpkin_gui::probe::{classify, first_line, probe_step, ProbeError, ProbeOutput, ProbeStep};

fn output(success: bool, stdout: &str, stderr: &str) -> ProbeOutput {
    ProbeOutput {
        success,
        status: "exit status: 2".to_owned(),
        stdout: stdout.to_owned(),
        stderr: stderr.to_owned(),
    }
}

#[test]
fn the_first_line_is_trimmed() {
    assert_eq!(first_line("  Pumpkin 1.0 (gui)  \r\nmore"), "Pumpkin 1.0 (gui)");
    assert_eq!(first_line(""), "");
    assert_eq!(first_line("\nsecond"), "");
}

#[test]
fn classification_follows_the_decision_table() {
    match classify(&output(false, "", "  oops \n"), true, true) {
        Err(ProbeError::Failed { status, stderr }) => {
            assert_eq!(status, "exit status: 2");
            assert_eq!(stderr, "oops");
        }
        other => panic!("unexpected {other:?}"),
    }
    match classify(&output(true, "hello world\n", ""), false, false) {
        Err(ProbeError::NotPumpkin { first_line }) => assert_eq!(first_line, "hello world"),
        other => panic!("unexpected {other:?}"),
    }
    match classify(&output(true, "Pumpkin 1.0\n", ""), true, false) {
        Err(ProbeError::NoGuiFeature { version }) => assert_eq!(version, "Pumpkin 1.0"),
        other => panic!("unexpected {other:?}"),
    }
    assert!(classify(&output(true, "Pumpkin 1.0 gui\n", ""), true, true).is_ok());
}

#[test]
fn rejections_explain_themselves() {
    assert_eq!(ProbeError::Timeout.message(), "it did not answer --version in time");
    assert_eq!(ProbeError::Spawn("denied".into()).message(), "could not run it: denied");
    assert_eq!(
        ProbeError::Failed { status: "exit 1".into(), stderr: String::new() }.message(),
        "it exited with exit 1"
    );
    assert_eq!(
        ProbeError::Failed { status: "exit 1".into(), stderr: "bad".into() }.message(),
        "it exited with exit 1: bad"
    );
    assert_eq!(
        ProbeError::NotPumpkin { first_line: "java 21".into() }.message(),
        "this does not look like a Pumpkin server (it printed: java 21)"
    );
    assert_eq!(
        ProbeError::NoGuiFeature { version: "Pumpkin 1.0".into() }.message(),
        "this Pumpkin build has no GUI support (Pumpkin 1.0); rebuild it with `cargo build --release --features gui`"
    );
}

#[test]
fn waiting_has_a_deadline() {
    assert!(matches!(probe_step(true, 99_999), ProbeStep::Collect));
    assert!(matches!(probe_step(false, 10), ProbeStep::Wait));
    assert!(matches!(probe_step(false, 5000), ProbeStep::GiveUp));
}
