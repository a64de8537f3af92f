use std::path::Path;

use audio_snip::error::AppError;
use audio_snip::paths::{read_unix_path, HostPath};
use audio_snip::rules::{
    codec_for_format, content_type_for, file_extension, hms_to_seconds, is_browser_compatible_video_codec,
    needs_transcode, validate_extension, validate_format, validate_path, validate_time, ALLOWED_FORMATS,
    ALLOWED_VIDEO_EXTENSIONS,
};

/// All supported video formats are accepted.
#[test]
fn uc001_validate_extension_accepts_supported() {
    for ext in ALLOWED_VIDEO_EXTENSIONS {
        assert!(validate_extension(ext), "expected {ext} to be accepted");
    }
}

/// Non-video formats are rejected.
#[test]
fn uc001_validate_extension_rejects_unsupported() {
    for ext in ["txt", "mp3", "pdf", "jpg", "flac"] {
        assert!(!validate_extension(ext), "expected {ext} to be rejected");
    }
}

/// A missing file is rejected.
#[test]
fn uc001_validate_path_rejects_missing_file() {
    let path = "/nonexistent/video.mp4";
    let result = validate_path(&read_unix_path(path), Path::new(path).exists());
    assert!(result.is_err());
    assert!(result.unwrap_err().to_string().contains("File not found"));
}

#[test]
fn uc001_validate_path_rejects_unsupported_extension() {
    let result = validate_path(&read_unix_path("/tmp/dir/file.txt"), true);
    assert!(result.is_err());
    assert!(result.unwrap_err().to_string().contains("Unsupported video format"));
}

#[test]
fn uc001_validate_path_accepts_valid_video() {
    assert!(validate_path(&read_unix_path("/tmp/dir/video.mp4"), true).is_ok());
}

#[test]
fn uc002_validate_time_accepts_valid_hms() {
    assert!(validate_time("00:00:00").is_ok());
    assert!(validate_time("01:30:45").is_ok());
    assert!(validate_time("12:59:59").is_ok());
}

#[test]
fn uc002_validate_time_rejects_two_parts() {
    let result = validate_time("10:30");
    assert!(result.is_err());
    assert!(result.unwrap_err().to_string().contains("expected HH:MM:SS"));
}

#[test]
fn uc002_validate_time_rejects_non_numeric() {
    let result = validate_time("ab:cd:ef");
    assert!(result.is_err());
}

/// Minutes must be 0-59.
#[test]
fn uc002_validate_time_rejects_invalid_minutes() {
    let result = validate_time("00:60:00");
    assert!(result.is_err());
    assert!(result.unwrap_err().to_string().contains("0-59"));
}

/// Seconds must be 0-59.
#[test]
fn uc002_validate_time_rejects_invalid_seconds() {
    let result = validate_time("00:00:60");
    assert!(result.is_err());
    assert!(result.unwrap_err().to_string().contains("0-59"));
}

#[test]
fn uc002_hms_to_seconds_zero() {
    assert_eq!(hms_to_seconds("00:00:00").unwrap() as f64, 0.0);
}

#[test]
fn uc002_hms_to_seconds_minutes_only() {
    assert_eq!(hms_to_seconds("00:05:30").unwrap() as f64, 330.0);
}

#[test]
fn uc002_hms_to_seconds_with_hours() {
    assert_eq!(hms_to_seconds("01:30:00").unwrap() as f64, 5400.0);
}

#[test]
fn uc002_range_start_before_end() {
    let start = hms_to_seconds("00:01:00").unwrap();
    let end = hms_to_seconds("00:05:00").unwrap();
    assert!(end > start);
}

/// All supported output formats are accepted.
#[test]
fn uc003_validate_format_accepts_supported() {
    for fmt in ALLOWED_FORMATS {
        assert!(validate_format(fmt).is_ok(), "expected {fmt} to be accepted");
    }
}

/// Unsupported output formats are rejected.
#[test]
fn uc003_validate_format_rejects_unsupported() {
    for fmt in ["wav", "flac", "wma", "m4a"] {
        assert!(validate_format(fmt).is_err(), "expected {fmt} to be rejected");
    }
}

#[test]
fn uc003_codec_for_format_aac_copy_when_source_aac() {
    assert_eq!(codec_for_format("aac", Some("aac")), "copy");
}

#[test]
fn uc003_codec_for_format_aac_encode_when_source_other() {
    assert_eq!(codec_for_format("aac", Some("mp3")), "aac");
    assert_eq!(codec_for_format("aac", None), "aac");
}

#[test]
fn uc003_codec_for_format_mp3() {
    assert_eq!(codec_for_format("mp3", None), "libmp3lame");
    assert_eq!(codec_for_format("mp3", Some("aac")), "libmp3lame");
}

#[test]
fn uc003_codec_for_format_ogg() {
    assert_eq!(codec_for_format("ogg", None), "libopus");
    assert_eq!(codec_for_format("ogg", Some("aac")), "libopus");
}

#[test]
fn extension_of_video_may_be_upper_case() {
    assert!(validate_path(&read_unix_path("/tmp/VIDEO.MP4"), true).is_ok());
    assert!(validate_path(&read_unix_path("/tmp/clip.WebM"), true).is_ok());
    assert!(validate_extension("MP4") == false);
    assert_eq!(file_extension(&read_unix_path("/tmp/VIDEO.MKV")).unwrap(), "mkv");
    // The Kelvin sign is a `k` in lower case.
    assert!(validate_path(&read_unix_path("/tmp/clip.M\u{212a}V"), true).is_ok());
}

#[test]
fn path_without_extension_is_refused() {
    let result = validate_path(&read_unix_path("/tmp/mp4"), true);
    assert!(matches!(&result, Err(AppError::UnsupportedVideoFormat(p)) if p == "/tmp/mp4"));
    assert!(validate_path(&read_unix_path("/tmp/.mp4"), true).is_err());
    assert!(file_extension(&read_unix_path("/tmp/.mp4")).is_none());
}

/// The parts of a path are taken as the host gives them.
#[test]
fn host_decides_on_the_extension() {
    let text = "C:\\v\\.mp4";
    let mut path = HostPath {
        text: text.to_string(),
        parent: Some("C:\\v".to_string()),
        file_stem: Some(".mp4".to_string()),
        extension: None,
    };
    let result = validate_path(&path, true);
    assert!(matches!(&result, Err(AppError::UnsupportedVideoFormat(p)) if p == text));
    path.extension = Some("MP4".to_string());
    assert!(validate_path(&path, true).is_ok());
}

#[test]
fn missing_file_is_reported_before_its_extension() {
    let result = validate_path(&read_unix_path("/tmp/file.txt"), false);
    assert!(matches!(&result, Err(AppError::FileNotFound(p)) if p == "/tmp/file.txt"));
}

#[test]
fn times_are_three_unsigned_numbers() {
    assert_eq!(hms_to_seconds("1:2:3").unwrap(), 3723);
    assert_eq!(hms_to_seconds("+1:+2:+3").unwrap(), 3723);
    assert_eq!(hms_to_seconds("4294967295:59:59").unwrap(), 15461882265599);
    for bad in ["", ":", "::", "1:2", "1:2:3:4", "1:2:", "-1:0:0", " 1:0:0", "4294967296:0:0", "1:2:3 ", "+:0:0"] {
        let result = hms_to_seconds(bad);
        assert!(matches!(&result, Err(AppError::InvalidTimeFormat(t)) if t == bad), "{bad}");
    }
    let result = hms_to_seconds("00:99:00");
    assert!(matches!(&result, Err(AppError::InvalidTimeRange(t)) if t == "00:99:00"));
}

#[test]
fn messages_name_the_cause() {
    assert_eq!(AppError::FileNotFound("a".to_string()).to_string(), "File not found: a");
    assert_eq!(
        AppError::UnsupportedVideoFormat("a".to_string()).to_string(),
        "Unsupported video format: a"
    );
    assert_eq!(
        AppError::UnsupportedOutputFormat("a".to_string()).to_string(),
        "Unsupported output format: a"
    );
    assert_eq!(
        AppError::InvalidTimeFormat("a".to_string()).to_string(),
        "Invalid time format (expected HH:MM:SS): a"
    );
    assert_eq!(
        AppError::InvalidTimeRange("a".to_string()).to_string(),
        "Minutes and seconds must be 0-59: a"
    );
    assert_eq!(AppError::StartAfterEnd.to_string(), "Start time must be before end time");
    assert_eq!(AppError::FfmpegFailed("a".to_string()).to_string(), "FFmpeg failed: a");
    assert_eq!(AppError::Cancelled.to_string(), "Cancelled");
    assert_eq!(AppError::Io("a".to_string()).to_string(), "a");
    assert_eq!(
        AppError::waveform_not_started("gone").to_string(),
        "FFmpeg failed: gone. Is FFmpeg installed?"
    );
    assert_eq!(
        AppError::extraction_not_started("gone").to_string(),
        "FFmpeg failed: gone. Is FFmpeg installed and in your PATH?"
    );
    assert_eq!(AppError::metadata_unreadable("gone").to_string(), "Cannot read file metadata: gone");
    assert_eq!(AppError::output_unreadable("gone").to_string(), "Failed to read FFmpeg output: gone");
}

#[test]
fn only_avi_and_mkv_are_transcoded() {
    for ext in ALLOWED_VIDEO_EXTENSIONS {
        assert_eq!(needs_transcode(ext), ext == "avi" || ext == "mkv");
    }
    assert!(!needs_transcode(""));
    assert!(!needs_transcode("AVI"));
}

#[test]
fn browser_codecs() {
    for codec in ["h264", "vp8", "vp9", "av1"] {
        assert!(is_browser_compatible_video_codec(codec));
    }
    for codec in ["hevc", "mpeg4", "", "H264"] {
        assert!(!is_browser_compatible_video_codec(codec));
    }
}

#[test]
fn media_types() {
    assert_eq!(content_type_for("mp4"), "video/mp4");
    assert_eq!(content_type_for("webm"), "video/webm");
    assert_eq!(content_type_for("mov"), "video/quicktime");
    assert_eq!(content_type_for("avi"), "video/x-msvideo");
    assert_eq!(content_type_for("mkv"), "video/x-matroska");
    assert_eq!(content_type_for("ogv"), "application/octet-stream");
}
