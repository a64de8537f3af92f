use audio_snip::probe::Seconds;
use audio_snip::task::{advance_task, advance_ticket, TaskAction, TaskEvent, TaskStage};
use audio_snip::transcode::{
    cleanup_transcode, get_or_start_transcode, ActiveTranscode, Lookup, ReadOutcome, TranscodeSession,
};

const PATH: &str = "/v/a.mkv";

fn data(bytes: &[u8]) -> TaskEvent {
    TaskEvent::ReadEnded { outcome: ReadOutcome::Data(bytes.to_vec()) }
}

#[test]
fn task_moves_output_to_the_buffer() {
    let mut session = TranscodeSession::new();
    let duration = Some(Seconds { bits: 2.5f64.to_bits() });
    let (stage, action) =
        advance_task(&mut session, PATH, TaskStage::Probing, TaskEvent::DurationProbed { duration });
    assert!(matches!(action, TaskAction::ProbeCodec));
    assert_eq!(f64::from_bits(session.get_duration().bits), 2.5);

    let codec = Some("h264".to_string());
    let (stage, action) = advance_task(&mut session, PATH, stage, TaskEvent::CodecProbed { codec });
    assert!(matches!(&action, TaskAction::Spawn { args } if args[1] == PATH && args[3] == "copy"));

    let (stage, action) = advance_task(&mut session, PATH, stage, TaskEvent::Spawned { has_output: true });
    assert!(matches!(action, TaskAction::Read));
    let (stage, action) = advance_task(&mut session, PATH, stage, data(b"ab"));
    assert!(matches!(action, TaskAction::Read));
    let (stage, action) = advance_task(&mut session, PATH, stage, data(b"c"));
    assert!(matches!(action, TaskAction::Read));
    assert!(!session.complete());

    let end = TaskEvent::ReadEnded { outcome: ReadOutcome::EndOfStream };
    let (stage, action) = advance_task(&mut session, PATH, stage, end);
    assert!(matches!(action, TaskAction::Wait));
    let (stage, action) = advance_task(&mut session, PATH, stage, TaskEvent::Exited);
    assert!(matches!(action, TaskAction::Finish { size: 3 }));
    assert_eq!(stage, TaskStage::Over);
    assert!(session.complete());
    assert!(!session.aborted());
    assert_eq!(session.buffer(), b"abc");
}

#[test]
fn duration_that_is_not_known_counts_as_nothing() {
    let mut session = TranscodeSession::new();
    advance_task(&mut session, PATH, TaskStage::Probing, TaskEvent::DurationProbed { duration: None });
    assert_eq!(f64::from_bits(session.get_duration().bits), 0.0);
}

#[test]
fn unknown_codec_is_encoded() {
    let mut session = TranscodeSession::new();
    let event = TaskEvent::CodecProbed { codec: None };
    let (_, action) = advance_task(&mut session, PATH, TaskStage::Choosing, event);
    assert!(matches!(&action, TaskAction::Spawn { args } if args[3] == "libx264"));
}

#[test]
fn session_is_complete_when_ffmpeg_cannot_be_started() {
    let mut session = TranscodeSession::new();
    let (stage, action) = advance_task(&mut session, PATH, TaskStage::Spawning, TaskEvent::SpawnFailed);
    assert_eq!(stage, TaskStage::Over);
    assert!(matches!(action, TaskAction::Finish { size: 0 }));
    assert!(session.complete());
    assert!(session.buffer().is_empty());
}

#[test]
fn ffmpeg_without_output_is_waited_for() {
    let mut session = TranscodeSession::new();
    let event = TaskEvent::Spawned { has_output: false };
    let (stage, action) = advance_task(&mut session, PATH, TaskStage::Spawning, event);
    assert_eq!(stage, TaskStage::Waiting);
    assert!(matches!(action, TaskAction::Wait));
}

#[test]
fn slow_ffmpeg_is_killed() {
    let mut session = TranscodeSession::new();
    let event = TaskEvent::ReadEnded { outcome: ReadOutcome::TimedOut };
    let (stage, action) = advance_task(&mut session, PATH, TaskStage::Reading, event);
    assert!(matches!(action, TaskAction::Kill));
    let (stage, action) = advance_task(&mut session, PATH, stage, TaskEvent::Killed);
    assert!(matches!(action, TaskAction::Wait));
    assert_eq!(stage, TaskStage::Waiting);
}

#[test]
fn unreadable_output_ends_the_task() {
    let mut session = TranscodeSession::new();
    let event = TaskEvent::ReadEnded { outcome: ReadOutcome::Failed };
    let (stage, action) = advance_task(&mut session, PATH, TaskStage::Reading, event);
    assert_eq!(stage, TaskStage::Waiting);
    assert!(matches!(action, TaskAction::Wait));
}

/// What a task brings still goes to its session when that was given up, and completes it.
#[test]
fn session_that_was_given_up_keeps_what_was_read() {
    let mut session = TranscodeSession::new();
    advance_task(&mut session, PATH, TaskStage::Reading, data(b"ab"));
    session.request_abort();
    let (stage, action) = advance_task(&mut session, PATH, TaskStage::Reading, data(b"late"));
    assert!(matches!(action, TaskAction::Kill));
    assert_eq!(session.buffer(), b"ablate");
    let (stage, _) = advance_task(&mut session, PATH, stage, TaskEvent::Killed);
    let (_, action) = advance_task(&mut session, PATH, stage, TaskEvent::Exited);
    assert!(matches!(action, TaskAction::Finish { size: 6 }));
    assert!(session.complete());
    assert!(session.aborted());
}

#[test]
fn nothing_is_read_for_a_session_given_up_before() {
    let mut session = TranscodeSession::new();
    session.request_abort();
    let event = TaskEvent::Spawned { has_output: true };
    let (stage, action) = advance_task(&mut session, PATH, TaskStage::Spawning, event);
    assert!(matches!(action, TaskAction::Kill));
    assert_eq!(stage, TaskStage::Killing);
}

#[test]
fn task_of_a_session_that_was_given_up_stops() {
    let mut active = ActiveTranscode::new();
    get_or_start_transcode(&mut active, PATH);
    get_or_start_transcode(&mut active, "/v/b.mkv");
    let (stage, action) = advance_ticket(&mut active, 0, PATH, TaskStage::Reading, data(b"late")).unwrap();
    assert!(matches!(action, TaskAction::Kill));
    assert_eq!(active.session(0).unwrap().buffer(), b"late");
    assert!(active.current().unwrap().buffer().is_empty());
    let (stage, _) = advance_ticket(&mut active, 0, PATH, stage, TaskEvent::Killed).unwrap();
    let (_, action) = advance_ticket(&mut active, 0, PATH, stage, TaskEvent::Exited).unwrap();
    assert!(matches!(action, TaskAction::Finish { size: 4 }));
    // The session is forgotten, and the active one goes on.
    assert!(active.session(0).is_none());
    assert!(!active.current().unwrap().complete());
    assert!(advance_ticket(&mut active, 0, PATH, TaskStage::Waiting, TaskEvent::Exited).is_none());

    cleanup_transcode(&mut active);
    let event = TaskEvent::Spawned { has_output: true };
    let (_, action) = advance_ticket(&mut active, 1, "/v/b.mkv", TaskStage::Spawning, event).unwrap();
    assert!(matches!(action, TaskAction::Kill));
}

#[test]
fn complete_session_is_served_until_it_is_given_up() {
    let mut active = ActiveTranscode::new();
    get_or_start_transcode(&mut active, PATH);
    advance_ticket(&mut active, 0, PATH, TaskStage::Reading, data(b"ab")).unwrap();
    advance_ticket(&mut active, 0, PATH, TaskStage::Waiting, TaskEvent::Exited).unwrap();
    assert!(active.current().unwrap().complete());
    assert_eq!(get_or_start_transcode(&mut active, PATH), Lookup::Found);
    cleanup_transcode(&mut active);
    assert!(active.session(0).is_none());
}

#[test]
fn session_that_was_given_up_never_comes_back() {
    let mut active = ActiveTranscode::new();
    get_or_start_transcode(&mut active, PATH);
    for path in ["/v/b.mkv", PATH, PATH, "/v/c.mkv", PATH] {
        get_or_start_transcode(&mut active, path);
        let (_, action) = advance_ticket(&mut active, 0, PATH, TaskStage::Reading, data(b"x")).unwrap();
        assert!(matches!(action, TaskAction::Kill));
        assert!(!active.is_current(0));
        assert!(active.current().unwrap().buffer().is_empty());
    }
    assert_eq!(active.session(0).unwrap().buffer(), b"xxxxx");
}
