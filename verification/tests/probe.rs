use audio_snip::error::AppError;
use audio_snip::paths::read_unix_path;
use audio_snip::probe::{
    audio_codec_args, codec_named, command_candidates, duration_args, ffmpeg_path, ffprobe_path, find_command,
    get_video_metadata, path_needs_transcode, read_answer, read_codec, video_codec_args, HostOs, ProbeRun,
    Seconds, ONE_SECOND, ZERO_SECONDS,
};

#[test]
fn commands_are_looked_for_in_order() {
    assert_eq!(command_candidates(HostOs::MacOs, "x"), ["/opt/homebrew/bin/x", "/usr/local/bin/x"]);
    assert_eq!(command_candidates(HostOs::Linux, "x"), ["/usr/local/bin/x", "/usr/bin/x"]);
    assert!(command_candidates(HostOs::Other, "x").is_empty());

    assert_eq!(find_command(HostOs::Linux, "x", &[true, true]), "/usr/local/bin/x");
    assert_eq!(find_command(HostOs::Linux, "x", &[false, true]), "/usr/bin/x");
    assert_eq!(find_command(HostOs::Linux, "x", &[false, false]), "x");
    assert_eq!(find_command(HostOs::Linux, "x", &[]), "x");
    assert_eq!(find_command(HostOs::Other, "x", &[true]), "x");
    assert_eq!(ffmpeg_path(HostOs::MacOs, &[true, false]), "/opt/homebrew/bin/ffmpeg");
    assert_eq!(ffprobe_path(HostOs::MacOs, &[false, false]), "ffprobe");
}

#[test]
fn probe_arguments() {
    let codec = |stream: &str| {
        [
            "-v",
            "error",
            "-select_streams",
            stream,
            "-show_entries",
            "stream=codec_name",
            "-of",
            "default=noprint_wrappers=1:nokey=1",
            "v.mkv",
        ]
        .map(|s| s.to_string())
    };
    assert_eq!(video_codec_args("v.mkv"), codec("v:0"));
    assert_eq!(audio_codec_args("v.mkv"), codec("a:0"));
    assert_eq!(
        duration_args("v.mkv"),
        ["-v", "error", "-show_entries", "format=duration", "-of", "default=noprint_wrappers=1:nokey=1", "v.mkv"]
    );
}

fn run(success: bool, stdout: &[u8]) -> Option<ProbeRun> {
    Some(ProbeRun { success, stdout: stdout.to_vec() })
}

#[test]
fn codecs_are_read_from_output() {
    assert_eq!(read_codec(&run(true, b"aac\n")).unwrap(), "aac");
    assert_eq!(read_codec(&run(true, b" h264 \r\n")).unwrap(), "h264");
    assert!(read_codec(&run(true, b"\n")).is_none());
    assert!(read_codec(&run(true, b"")).is_none());
    assert!(read_codec(&run(false, b"aac\n")).is_none());
    assert!(read_codec(&None).is_none());
    assert_eq!(read_codec(&run(true, b"a\xffb")).unwrap(), "a\u{fffd}b");
    assert!(codec_named(Some(String::new())).is_none());
    assert_eq!(codec_named(Some("x".to_string())).unwrap(), "x");
    assert!(codec_named(None).is_none());
}

#[test]
fn durations_are_read_from_output() {
    assert_eq!(read_answer(&run(true, b"12.500000\n")).unwrap(), "12.500000");
    assert_eq!(read_answer(&run(true, b"\n")).unwrap(), "");
    assert!(read_answer(&run(false, b"12.5")).is_none());
}

#[test]
fn metadata_of_a_video() {
    let bits = 12.5f64.to_bits();
    let path = read_unix_path("/v/A.MKV");
    let codec = Some("aac".to_string());
    let known = get_video_metadata(&path, true, Some(Seconds { bits }), Ok(77), codec).unwrap();
    assert_eq!(f64::from_bits(known.duration_secs.bits), 12.5);
    assert_eq!(known.file_size_bytes, 77);
    assert_eq!(known.audio_codec.unwrap(), "aac");
    assert!(known.needs_transcode);
    let unknown = get_video_metadata(&read_unix_path("/v/a.mp4"), true, None, Ok(0), None).unwrap();
    assert_eq!(f64::from_bits(unknown.duration_secs.bits), 0.0);
    assert!(unknown.audio_codec.is_none());
    assert!(!unknown.needs_transcode);
    assert!(!path_needs_transcode(&read_unix_path("/v/avi")));
}

#[test]
fn metadata_of_an_invalid_video() {
    let unreadable = || Err("denied".to_string());
    let missing = get_video_metadata(&read_unix_path("/v/a.txt"), false, None, unreadable(), None);
    assert!(matches!(missing, Err(AppError::FileNotFound(_))));
    let unsupported = get_video_metadata(&read_unix_path("/v/a.txt"), true, None, unreadable(), None);
    assert!(matches!(unsupported, Err(AppError::UnsupportedVideoFormat(_))));
    let closed = get_video_metadata(&read_unix_path("/v/a.mp4"), true, None, unreadable(), None);
    assert_eq!(closed.unwrap_err().to_string(), "Cannot read file metadata: denied");
}

#[test]
fn named_durations() {
    assert_eq!(f64::from_bits(ZERO_SECONDS), 0.0);
    assert_eq!(f64::from_bits(ONE_SECOND), 1.0);
}
