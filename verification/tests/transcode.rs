use audio_snip::mp4::parse_mp4_fragment_offsets;
use audio_snip::probe::Seconds;
use audio_snip::transcode::{
    cleanup_transcode, get_or_start_transcode, transcode_args, ActiveTranscode, Lookup, ReadOutcome, TranscodeAction,
    TranscodeSession,
};

fn mp4_box(kind: &[u8; 4], payload: usize) -> Vec<u8> {
    let mut b = ((payload + 8) as u32).to_be_bytes().to_vec();
    b.extend_from_slice(kind);
    b.resize(payload + 8, 0xaa);
    b
}

fn join(boxes: &[Vec<u8>]) -> Vec<u8> {
    boxes.concat()
}

#[test]
fn fragments_are_found() {
    let stream = join(&[
        mp4_box(b"ftyp", 4),
        mp4_box(b"moov", 10),
        mp4_box(b"moof", 6),
        mp4_box(b"mdat", 20),
        mp4_box(b"moof", 0),
        mp4_box(b"mdat", 1),
    ]);
    assert_eq!(parse_mp4_fragment_offsets(&stream), [30, 72]);
    assert!(parse_mp4_fragment_offsets(&[]).is_empty());
    assert!(parse_mp4_fragment_offsets(&stream[..37]).is_empty());
    assert_eq!(parse_mp4_fragment_offsets(&stream[..38]), [30]);
    assert_eq!(parse_mp4_fragment_offsets(&stream[..71]), [30]);
}

#[test]
fn box_that_is_too_small_ends_the_chain() {
    let mut stream = mp4_box(b"moof", 0);
    stream.extend_from_slice(&[0, 0, 0, 7, b'm', b'o', b'o', b'f']);
    stream.extend_from_slice(&mp4_box(b"moof", 0));
    assert_eq!(parse_mp4_fragment_offsets(&stream), [0]);
}

#[test]
fn large_box_ends_the_chain() {
    let mut stream = vec![0xff, 0xff, 0xff, 0xff, b'm', b'o', b'o', b'f'];
    stream.extend_from_slice(&mp4_box(b"moof", 0));
    assert_eq!(parse_mp4_fragment_offsets(&stream), [0]);
}

#[test]
fn fragments_stay_when_the_stream_grows() {
    let stream = join(&[
        mp4_box(b"ftyp", 3),
        mp4_box(b"moof", 6),
        mp4_box(b"mdat", 9),
        mp4_box(b"moof", 6),
        mp4_box(b"mdat", 9),
        mp4_box(b"moof", 1),
    ]);
    let all = parse_mp4_fragment_offsets(&stream);
    for n in 0..=stream.len() {
        let some = parse_mp4_fragment_offsets(&stream[..n]);
        assert_eq!(some[..], all[..some.len()]);
    }
}

#[test]
fn arguments_copy_what_browsers_decode() {
    assert_eq!(
        transcode_args("/v/a.mkv", Some("h264")),
        ["-i", "/v/a.mkv", "-c", "copy", "-movflags", "frag_keyframe+empty_moov+default_base_moof", "-f", "mp4", "pipe:1"]
    );
    let encoded = [
        "-i", "/v/a.mkv", "-c:v", "libx264", "-preset", "ultrafast", "-crf", "28", "-profile:v", "baseline", "-c:a",
        "aac", "-b:a", "128k", "-movflags", "frag_keyframe+empty_moov+default_base_moof", "-f", "mp4", "pipe:1",
    ];
    assert_eq!(transcode_args("/v/a.mkv", Some("hevc")), encoded);
    assert_eq!(transcode_args("/v/a.mkv", None), encoded);
}

#[test]
fn session_collects_bytes() {
    let mut s = TranscodeSession::new();
    assert_eq!(s.before_read(), TranscodeAction::Read);
    assert_eq!(s.after_read(ReadOutcome::Data(b"ab".to_vec())), TranscodeAction::Read);
    assert_eq!(s.after_read(ReadOutcome::Data(b"c".to_vec())), TranscodeAction::Read);
    assert_eq!(s.after_read(ReadOutcome::Data(Vec::new())), TranscodeAction::Stop);
    assert_eq!(s.after_read(ReadOutcome::EndOfStream), TranscodeAction::Stop);
    assert_eq!(s.after_read(ReadOutcome::Failed), TranscodeAction::Stop);
    assert_eq!(s.after_read(ReadOutcome::TimedOut), TranscodeAction::KillAndStop);
    assert_eq!(s.buffer(), b"abc");
    assert!(!s.complete());
    s.mark_complete();
    assert!(s.complete());
    s.request_abort();
    assert!(s.aborted());
    assert_eq!(s.before_read(), TranscodeAction::KillAndStop);
}

#[test]
fn session_keeps_fragments_up_to_date() {
    let mut s = TranscodeSession::new();
    assert!(s.get_fragment_offsets().is_empty());
    s.after_read(ReadOutcome::Data(mp4_box(b"ftyp", 0)));
    assert!(s.get_fragment_offsets().is_empty());
    s.after_read(ReadOutcome::Data(mp4_box(b"moof", 0)));
    assert_eq!(s.get_fragment_offsets(), [8]);
    assert_eq!(s.get_fragment_offsets(), [8]);
    s.after_read(ReadOutcome::Data(mp4_box(b"moof", 0)));
    assert_eq!(s.get_fragment_offsets(), [8, 16]);
}

#[test]
fn duration_is_one_second_until_known() {
    let mut s = TranscodeSession::new();
    assert_eq!(f64::from_bits(s.get_duration().bits), 1.0);
    s.set_duration(Some(Seconds { bits: 2.5f64.to_bits() }));
    assert_eq!(f64::from_bits(s.get_duration().bits), 2.5);
    s.set_duration(None);
    assert_eq!(f64::from_bits(s.get_duration().bits), 0.0);
}

#[test]
fn one_video_is_transcoded_at_a_time() {
    let mut active = ActiveTranscode::new();
    assert_eq!(get_or_start_transcode(&mut active, "/v/a.mkv"), Lookup::Started { ticket: 0 });
    assert!(active.is_current(0));
    assert_eq!(get_or_start_transcode(&mut active, "/v/a.mkv"), Lookup::Found);

    assert_eq!(get_or_start_transcode(&mut active, "/v/b.mkv"), Lookup::Started { ticket: 1 });
    assert!(active.is_current(1));
    assert!(!active.is_current(0));
    assert!(!active.current().unwrap().aborted());
    // The first session has been given up, and waits for its task to end.
    assert!(active.session(0).unwrap().aborted());
    assert_eq!(active.session(0).unwrap().before_read(), TranscodeAction::KillAndStop);
    assert!(active.session(2).is_none());
}

#[test]
fn cleanup_gives_the_session_up() {
    let mut active = ActiveTranscode::new();
    cleanup_transcode(&mut active);
    assert!(active.current().is_none());
    get_or_start_transcode(&mut active, "/v/a.mkv");
    assert!(active.get_fragment_offsets().unwrap().is_empty());
    cleanup_transcode(&mut active);
    assert!(active.current().is_none());
    assert!(active.get_fragment_offsets().is_none());
    assert!(active.session(0).unwrap().aborted());
    assert_eq!(get_or_start_transcode(&mut active, "/v/a.mkv"), Lookup::Started { ticket: 1 });
    assert!(active.current().unwrap().buffer().is_empty());
}
