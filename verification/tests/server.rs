use axum::http::HeaderValue;

use audio_snip::handlers::{serve_hls_playlist, serve_video, VideoAnswer};
use audio_snip::paths::read_unix_path;
use audio_snip::probe::path_needs_transcode;
use audio_snip::range::{asks_for_nothing, parse_range, read_range_header, RangeHeader};
use audio_snip::registry::{is_path_registered, register_media_path, MediaPaths};
use audio_snip::rules::validate_path;
use audio_snip::server::{check_playlist, serve_transcoded, video_route, Status, VideoRoute};
use audio_snip::task::{advance_ticket, TaskEvent, TaskStage};
use audio_snip::transcode::{ActiveTranscode, Lookup, ReadOutcome, TranscodeSession};

fn registered(paths: &[&str]) -> MediaPaths {
    let mut media = MediaPaths::new();
    for p in paths {
        register_media_path(&mut media, p.to_string());
    }
    media
}

fn text(s: &str) -> RangeHeader {
    RangeHeader::Text(s.to_string())
}

fn session(bytes: &[u8], complete: bool) -> TranscodeSession {
    let mut s = TranscodeSession::new();
    s.after_read(ReadOutcome::Data(bytes.to_vec()));
    if complete {
        s.mark_complete();
    }
    s
}

#[test]
fn paths_are_served_once_registered() {
    let media = registered(&["/v/a.mp4"]);
    assert!(is_path_registered(&media, "/v/a.mp4"));
    assert!(!is_path_registered(&media, "/v/b.mp4"));
    assert!(!is_path_registered(&MediaPaths::new(), "/v/a.mp4"));
    let twice = registered(&["/v/a.mp4", "/v/a.mp4"]);
    assert!(is_path_registered(&twice, "/v/a.mp4"));
}

#[test]
fn ranges_of_bytes() {
    assert_eq!(parse_range("bytes=0-99", 1000), Some((0, 99)));
    assert_eq!(parse_range("bytes=0-0", 1000), Some((0, 0)));
    assert_eq!(parse_range("bytes=500-", 1000), Some((500, 999)));
    assert_eq!(parse_range("bytes=-1", 1000), Some((999, 999)));
    assert_eq!(parse_range("bytes=-1000", 1000), Some((0, 999)));
    assert_eq!(parse_range("bytes=-0", 1000), Some((1000, 999)));
    assert_eq!(parse_range("bytes=10-5000", 1000), Some((10, 999)));
    assert_eq!(parse_range("bytes=+1-+2", 1000), Some((1, 2)));
    for bad in [
        "", "bytes", "bytes=", "bytes=-", "0-1", "bytes=a-b", "bytes=1-2-3", "bytes=1000-", "bytes=5-4", "bytes=-1001",
        "bytes=1000-1001", "bytes=0-18446744073709551616", "bytes=0-1,3-4", "Bytes=0-1", "bytes= 0-1",
    ] {
        assert_eq!(parse_range(bad, 1000), None, "{bad}");
    }
    assert_eq!(parse_range("bytes=0-", 0), None);
    assert_eq!(parse_range("bytes=0-1", 0), None);
    assert_eq!(parse_range("bytes=-1", 0), None);
}

#[test]
fn written_ranges_are_read() {
    for (start, end) in [(0u64, 0u64), (0, 9), (3, 7), (1 << 40, (1 << 40) + 5)] {
        let range = format!("bytes={start}-{end}");
        assert_eq!(parse_range(&range, end + 1), Some((start, end)));
        assert!(!asks_for_nothing(&range));
    }
}

#[test]
fn ranges_that_ask_for_nothing() {
    assert!(asks_for_nothing("bytes=-0"));
    assert!(asks_for_nothing("bytes=-+00"));
    for other in ["bytes=-", "bytes=-1", "bytes=0-0", "-0", "bytes=0-"] {
        assert!(!asks_for_nothing(other));
    }
}

#[test]
fn range_headers_are_visible_ascii() {
    assert!(matches!(read_range_header(None), RangeHeader::Absent));
    assert!(matches!(read_range_header(Some(b"bytes=0-1")), RangeHeader::Text(t) if t == "bytes=0-1"));
    assert!(matches!(read_range_header(Some(b"a\tb ~")), RangeHeader::Text(t) if t == "a\tb ~"));
    assert!(matches!(read_range_header(Some(b"")), RangeHeader::Text(t) if t.is_empty()));
    assert!(matches!(read_range_header(Some(b"bytes=0-\xe9")), RangeHeader::Unreadable));
    for b in 0..=255u8 {
        let ours = matches!(read_range_header(Some(&[b])), RangeHeader::Text(t) if t.as_bytes() == [b]);
        let theirs = HeaderValue::from_bytes(&[b]).map(|v| v.to_str().is_ok()).unwrap_or(false);
        assert_eq!(ours, theirs, "{b}");
    }
}

#[test]
fn routes() {
    let media = registered(&["/v/a.mp4", "/v/b.MKV", "/v/c.txt", "/v/d"]);
    assert!(matches!(video_route(&media, &read_unix_path("/v/a.mp4")), Ok(VideoRoute::Direct { ext }) if ext == "mp4"));
    assert!(matches!(video_route(&media, &read_unix_path("/v/b.MKV")), Ok(VideoRoute::Transcoded)));
    assert!(matches!(video_route(&media, &read_unix_path("/v/c.txt")), Err(Status::Forbidden)));
    assert!(matches!(video_route(&media, &read_unix_path("/v/d")), Err(Status::Forbidden)));
    assert!(matches!(video_route(&media, &read_unix_path("/etc/secret.mp4")), Err(Status::Forbidden)));

    assert_eq!(check_playlist(&media, &read_unix_path("/v/b.MKV")), Ok(()));
    assert_eq!(check_playlist(&media, &read_unix_path("/v/a.mp4")), Err(Status::NotFound));
    assert_eq!(check_playlist(&media, &read_unix_path("/v/x.mkv")), Err(Status::Forbidden));
}

#[test]
fn status_codes() {
    let codes = [
        (Status::Success, 200),
        (Status::PartialContent, 206),
        (Status::BadRequest, 400),
        (Status::Forbidden, 403),
        (Status::NotFound, 404),
        (Status::RangeNotSatisfiable, 416),
        (Status::InternalServerError, 500),
        (Status::ServiceUnavailable, 503),
    ];
    for (status, code) in codes {
        assert_eq!(status.code(), code);
    }
}

#[test]
fn range_of_a_running_transcode() {
    let s = session(b"0123456789", false);
    let (head, body) = serve_transcoded(&s, &text("bytes=2-4")).unwrap();
    assert_eq!(body, b"234");
    assert_eq!(head.status, Status::PartialContent);
    assert_eq!(head.content_type, "video/mp4");
    assert_eq!(head.content_length, Some(3));
    assert_eq!(head.content_range.unwrap(), "bytes 2-4/*");
    assert!(head.accept_ranges);
    assert!(!head.no_cache);
}

#[test]
fn range_of_a_complete_transcode() {
    let s = session(b"0123456789", true);
    let (head, body) = serve_transcoded(&s, &text("bytes=7-")).unwrap();
    assert_eq!(body, b"789");
    assert_eq!(head.content_range.unwrap(), "bytes 7-9/10");
    let (head, body) = serve_transcoded(&s, &text("bytes=-0")).unwrap();
    assert!(body.is_empty());
    assert_eq!(head.content_length, Some(0));
    assert_eq!(head.content_range.unwrap(), "bytes 10-9/10");
}

#[test]
fn transcode_without_range_has_to_be_complete() {
    let (head, body) = serve_transcoded(&session(b"0123", true), &RangeHeader::Absent).unwrap();
    assert_eq!(body, b"0123");
    assert_eq!(head.status, Status::Success);
    assert_eq!(head.content_length, Some(4));
    assert!(head.content_range.is_none());
    let running = serve_transcoded(&session(b"0123", false), &RangeHeader::Absent);
    assert!(matches!(running, Err(Status::ServiceUnavailable)));
}

#[test]
fn transcode_refusals() {
    let s = session(b"0123", true);
    assert!(matches!(serve_transcoded(&s, &RangeHeader::Unreadable), Err(Status::BadRequest)));
    assert!(matches!(serve_transcoded(&s, &text("bytes=4-")), Err(Status::RangeNotSatisfiable)));
    let empty = session(b"", true);
    assert!(matches!(serve_transcoded(&empty, &RangeHeader::Unreadable), Err(Status::ServiceUnavailable)));
    assert!(matches!(serve_transcoded(&empty, &text("bytes=0-")), Err(Status::ServiceUnavailable)));
}

/// What passes the check of its path is served, and what needs transcoding has a playlist.
#[test]
fn accepted_videos_are_served() {
    for path in ["/v/a.mp4", "/v/b.MOV", "/v/c.avi", "/v/d.Mkv", "/v/e.webm"] {
        let media = registered(&[path]);
        assert!(validate_path(&read_unix_path(path), true).is_ok());
        assert!(video_route(&media, &read_unix_path(path)).is_ok());
        let transcoded = matches!(video_route(&media, &read_unix_path(path)), Ok(VideoRoute::Transcoded));
        assert_eq!(path_needs_transcode(&read_unix_path(path)), transcoded);
        assert_eq!(check_playlist(&media, &read_unix_path(path)).is_ok(), transcoded);
    }
}

#[test]
fn video_requests() {
    let media = registered(&["/v/a.mp4", "/v/b.mkv", "/v/c.avi"]);
    let mut active = ActiveTranscode::new();

    let unknown = read_unix_path("/v/x.mp4");
    assert!(matches!(serve_video(&media, &mut active, &unknown, &RangeHeader::Absent), Err(Status::Forbidden)));
    assert!(active.current().is_none());

    let first = read_unix_path("/v/b.mkv");
    match serve_video(&media, &mut active, &first, &text("bytes=0-1")) {
        Ok(VideoAnswer::Transcoded { lookup: Lookup::Started { ticket: 0 }, reply }) => {
            assert!(matches!(reply, Err(Status::ServiceUnavailable)));
        }
        _ => panic!("expected a new transcode"),
    }
    let read = TaskEvent::ReadEnded { outcome: ReadOutcome::Data(b"0123".to_vec()) };
    advance_ticket(&mut active, 0, "/v/b.mkv", TaskStage::Reading, read).unwrap();
    match serve_video(&media, &mut active, &first, &text("bytes=1-2")) {
        Ok(VideoAnswer::Transcoded { lookup: Lookup::Found, reply: Ok((_, body)) }) => assert_eq!(body, b"12"),
        _ => panic!("expected the transcode that is there"),
    }
    match serve_video(&media, &mut active, &read_unix_path("/v/c.avi"), &RangeHeader::Absent) {
        Ok(VideoAnswer::Transcoded { lookup: Lookup::Started { ticket: 1 }, .. }) => {
            assert!(active.session(0).unwrap().aborted());
            assert_eq!(active.session(0).unwrap().buffer(), b"0123");
        }
        _ => panic!("expected another transcode"),
    }
    match serve_video(&media, &mut active, &read_unix_path("/v/a.mp4"), &RangeHeader::Absent) {
        Ok(VideoAnswer::Direct { ext }) => {
            assert_eq!(ext, "mp4");
            assert!(active.session(1).unwrap().aborted());
        }
        _ => panic!("expected the file"),
    }
    assert!(active.current().is_none());
}

#[test]
fn playlist_requests() {
    let media = registered(&["/v/a.mp4", "/v/b.mkv"]);
    let mut active = ActiveTranscode::new();
    assert!(matches!(serve_hls_playlist(&media, &mut active, &read_unix_path("/v/a.mp4")), Err(Status::NotFound)));
    assert!(matches!(serve_hls_playlist(&media, &mut active, &read_unix_path("/v/x.mkv")), Err(Status::Forbidden)));
    assert!(active.current().is_none());
    let answer = serve_hls_playlist(&media, &mut active, &read_unix_path("/v/b.mkv")).ok().unwrap();
    assert!(matches!(answer.lookup, Lookup::Started { ticket: 0 }));
    assert!(matches!(answer.plan, Err(Status::ServiceUnavailable)));
    assert_eq!(f64::from_bits(answer.duration.bits), 1.0);
}
