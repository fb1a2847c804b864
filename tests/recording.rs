use sadb::{wants_deletion, AdbError, RecordAction, RecordEvent, RecordState, RecordingSession};

fn ids(v: &[&str]) -> Vec<String> {
    v.iter().map(|s| s.to_string()).collect()
}

fn to_collecting(s: &mut RecordingSession) {
    match s.action() {
        RecordAction::Spawn(argv) => assert_eq!(
            argv,
            ids(&["-s", "emu", "shell", "screenrecord /data/local/tmp/video.mp4"])
        ),
        _ => panic!("expected the recorder to start"),
    }
    s.advance(RecordEvent::Started);
    assert!(matches!(s.action(), RecordAction::ArmInterrupt));
    s.advance(RecordEvent::Armed);
    assert!(matches!(s.action(), RecordAction::Wait));
    s.advance(RecordEvent::Exited);
    assert_eq!(s.state(), RecordState::Collecting);
    match s.action() {
        RecordAction::SleepThenPull(secs, argv) => {
            assert_eq!(secs, 5);
            assert_eq!(
                argv,
                ids(&["-s", "emu", "pull", "/data/local/tmp/video.mp4", "video.mp4"])
            );
        }
        _ => panic!("expected the pull"),
    }
}

#[test]
fn failed_pull_skips_the_question() {
    let mut s = RecordingSession::new("emu", "video.mp4");
    to_collecting(&mut s);
    s.advance(RecordEvent::PullExited(false));
    assert_eq!(s.state(), RecordState::Terminal);
    assert!(matches!(s.action(), RecordAction::Finish(Ok(()))));
    s.advance(RecordEvent::Answer(String::new()));
    s.advance(RecordEvent::RemoveFinished);
    assert!(matches!(s.action(), RecordAction::Finish(Ok(()))));
}

#[test]
fn confirmed_deletion_removes_recording() {
    let mut s = RecordingSession::new("emu", "video.mp4");
    to_collecting(&mut s);
    s.advance(RecordEvent::PullExited(true));
    match s.action() {
        RecordAction::Prompt(f) => assert_eq!(f, "video.mp4"),
        _ => panic!("expected the question"),
    }
    s.advance(RecordEvent::Answer("\n".to_string()));
    match s.action() {
        RecordAction::Remove(argv) => {
            assert_eq!(argv, ids(&["-s", "emu", "shell", "rm", "/data/local/tmp/video.mp4"]))
        }
        _ => panic!("expected the removal"),
    }
    s.advance(RecordEvent::RemoveFinished);
    assert_eq!(s.state(), RecordState::CleanupDone);
    assert!(matches!(s.action(), RecordAction::Finish(Ok(()))));
}

#[test]
fn declined_deletion_keeps_recording() {
    let mut s = RecordingSession::new("emu", "video.mp4");
    to_collecting(&mut s);
    s.advance(RecordEvent::PullExited(true));
    s.advance(RecordEvent::Answer("n\n".to_string()));
    assert_eq!(s.state(), RecordState::Terminal);
    assert!(matches!(s.action(), RecordAction::Finish(Ok(()))));
}

#[test]
fn recorder_start_failure_is_an_error() {
    let mut s = RecordingSession::new("emu", "clip.mp4");
    s.advance(RecordEvent::NotStarted);
    assert!(matches!(s.action(), RecordAction::Finish(Err(AdbError::Spawn))));
}

#[test]
fn wait_and_input_failures_are_errors() {
    let mut s = RecordingSession::new("emu", "video.mp4");
    s.advance(RecordEvent::Started);
    s.advance(RecordEvent::Armed);
    s.advance(RecordEvent::WaitFailed);
    assert!(matches!(s.action(), RecordAction::Finish(Err(AdbError::Wait))));

    let mut s = RecordingSession::new("emu", "video.mp4");
    to_collecting(&mut s);
    s.advance(RecordEvent::PullExited(true));
    s.advance(RecordEvent::InputFailed);
    assert!(matches!(s.action(), RecordAction::Finish(Err(AdbError::Input))));
}

#[test]
fn pull_start_failure_is_an_error() {
    let mut s = RecordingSession::new("emu", "video.mp4");
    to_collecting(&mut s);
    s.advance(RecordEvent::NotStarted);
    assert!(matches!(s.action(), RecordAction::Finish(Err(AdbError::Spawn))));
}

#[test]
fn deletion_answers() {
    assert!(wants_deletion(""));
    assert!(wants_deletion("\n"));
    assert!(wants_deletion("y\n"));
    assert!(wants_deletion("  Y  \r\n"));
    assert!(!wants_deletion("n\n"));
    assert!(!wants_deletion("yes\n"));
    assert!(!wants_deletion("yy"));
    assert!(!wants_deletion("x"));
}
