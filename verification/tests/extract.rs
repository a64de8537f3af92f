use audio_snip::error::AppError;
use audio_snip::extract::{
    advance, audio_range_command, prepare_audio_range, prepare_whole_audio, whole_audio_args, Action,
    CancelFlag, Event, Stage,
};
use audio_snip::paths::read_unix_path;

/// The wish to cancel can be set, read and cleared.
#[test]
fn uc004_cancel_flag_store_and_load() {
    let mut cancel_flag = CancelFlag { requested: false };
    cancel_flag.store(false);
    assert!(!cancel_flag.load());
    cancel_flag.store(true);
    assert!(cancel_flag.load());
    cancel_flag.store(false);
    assert!(!cancel_flag.load());
}

#[test]
fn whole_audio() {
    let out = prepare_whole_audio(&read_unix_path("/tmp/video.mp4"), true, "mp3", "a").unwrap().to_unix_path();
    assert_eq!(out, "/tmp/video-a-audio.mp3");
    let mut cancel = CancelFlag { requested: true };
    let args = whole_audio_args(&mut cancel, "/tmp/video.mp4", "mp3", Some("aac"), &out);
    assert!(!cancel.load());
    assert_eq!(
        args,
        ["-y", "-i", "/tmp/video.mp4", "-vn", "-c:a", "libmp3lame", "-progress", "pipe:1", "/tmp/video-a-audio.mp3"]
    );
}

#[test]
fn audio_range() {
    let path = "/tmp/video.mp4";
    let video = read_unix_path(path);
    let out = prepare_audio_range(&video, true, "00:01:00", "00:05:00", "aac", "").unwrap().to_unix_path();
    let mut cancel = CancelFlag { requested: true };
    let command =
        audio_range_command(&mut cancel, path, "00:01:00", "00:05:00", "aac", Some("aac"), &out).unwrap();
    assert!(!cancel.load());
    assert_eq!(command.duration_secs, 240);
    assert_eq!(
        command.args,
        [
            "-y", "-ss", "00:01:00", "-i", "/tmp/video.mp4", "-t", "240.000", "-vn", "-c:a", "copy", "-progress",
            "pipe:1", "/tmp/video-audio.aac"
        ]
    );
}

#[test]
fn range_length_has_three_decimals() {
    for (start, end) in [("00:00:00", "00:00:01"), ("0:0:1", "1000000:00:00")] {
        let mut cancel = CancelFlag { requested: false };
        let command = audio_range_command(&mut cancel, "v.mp4", start, end, "ogg", None, "o.ogg").unwrap();
        assert_eq!(command.args[6], format!("{:.3}", command.duration_secs as f64));
    }
}

#[test]
fn range_must_not_be_empty() {
    for (start, end) in [("00:01:00", "00:01:00"), ("00:02:00", "00:01:59")] {
        let mut cancel = CancelFlag { requested: true };
        let result = audio_range_command(&mut cancel, "v.mp4", start, end, "ogg", None, "o.ogg");
        assert!(matches!(result, Err(AppError::StartAfterEnd)));
        assert!(cancel.load());
    }
    let mut cancel = CancelFlag { requested: false };
    let result = audio_range_command(&mut cancel, "v.mp4", "x", "y", "ogg", None, "o.ogg");
    assert!(matches!(&result, Err(AppError::InvalidTimeFormat(t)) if t == "y"));
}

#[test]
fn extraction_leaves_the_video_alone() {
    for video in ["/tmp/a-audio.mp4", "a.MKV", "./x/y.webm"] {
        for format in ["aac", "mp3", "ogg"] {
            let path = read_unix_path(video);
            assert_ne!(prepare_whole_audio(&path, true, format, "").unwrap().to_unix_path(), video);
            let part = prepare_audio_range(&path, true, "0:0:0", "0:0:1", format, "z").unwrap();
            assert_ne!(part.to_unix_path(), video);
        }
    }
    assert!(prepare_whole_audio(&read_unix_path("/tmp/a-audio.mp3"), true, "mp3", "").is_err());
}

#[test]
fn first_failure_is_reported() {
    let r = prepare_audio_range(&read_unix_path("/tmp/v.txt"), false, "x", "00:60:00", "wav", "");
    assert!(matches!(r, Err(AppError::FileNotFound(_))));
    let r = prepare_audio_range(&read_unix_path("/tmp/v.txt"), true, "x", "00:60:00", "wav", "");
    assert!(matches!(r, Err(AppError::UnsupportedVideoFormat(_))));
    let r = prepare_audio_range(&read_unix_path("/tmp/v.mp4"), true, "x", "00:60:00", "wav", "");
    assert!(matches!(r, Err(AppError::UnsupportedOutputFormat(_))));
    let r = prepare_audio_range(&read_unix_path("/tmp/v.mp4"), true, "x", "00:60:00", "ogg", "");
    assert!(matches!(r, Err(AppError::InvalidTimeFormat(_))));
    let r = prepare_audio_range(&read_unix_path("/tmp/v.mp4"), true, "0:0:0", "00:60:00", "ogg", "");
    assert!(matches!(r, Err(AppError::InvalidTimeRange(_))));
    let r = prepare_whole_audio(&read_unix_path("/tmp/v.mp4"), true, "wav", "");
    assert!(matches!(&r, Err(AppError::UnsupportedOutputFormat(f)) if f == "wav"));
}

fn line(text: &str, cancel_requested: bool) -> Event {
    Event::Line { text: text.to_string(), cancel_requested }
}

#[test]
fn progress_lines_are_reported() {
    let (stage, action) = advance(Stage::Reading, line("out_time_us=1500000", false));
    assert_eq!(stage, Stage::Reading);
    assert!(matches!(&action, Action::Report { time_us } if time_us == "1500000"));
    let (stage, action) = advance(Stage::Reading, line("bitrate=128", false));
    assert_eq!(stage, Stage::Reading);
    assert!(matches!(action, Action::ReadLine));
}

/// A partial output is removed when the extraction is cancelled.
#[test]
fn cancelled_extraction_is_cleaned_up() {
    let (stage, action) = advance(Stage::Reading, line("out_time_us=1", true));
    assert!(matches!(action, Action::Kill));
    let (stage, action) = advance(stage, Event::Killed);
    assert!(matches!(action, Action::RemoveOutput));
    let (stage, action) = advance(stage, Event::Removed);
    assert!(matches!(action, Action::Fail { error: AppError::Cancelled }));
    assert_eq!(stage, Stage::Done);
}

#[test]
fn extraction_ends_as_ffmpeg_does() {
    let (stage, action) = advance(Stage::Reading, Event::EndOfProgress);
    assert_eq!(stage, Stage::Waiting);
    assert!(matches!(action, Action::Wait));

    let (stage, action) = advance(Stage::Waiting, Event::Exited { success: true });
    assert_eq!(stage, Stage::Done);
    assert!(matches!(action, Action::Succeed));

    let (stage, action) = advance(Stage::Waiting, Event::Exited { success: false });
    assert!(matches!(action, Action::ReadStderr));
    let (stage, action) = advance(stage, Event::Stderr { text: "no such codec".to_string() });
    assert_eq!(stage, Stage::Done);
    assert!(matches!(&action, Action::Fail { error } if error.to_string() == "FFmpeg failed: no such codec"));

    let (stage, action) = advance(Stage::Waiting, Event::WaitFailed { cause: "lost".to_string() });
    assert_eq!(stage, Stage::Done);
    assert!(matches!(&action, Action::Fail { error } if error.to_string() == "FFmpeg failed: lost"));
}
