use std::collections::HashMap;

use axum::extract::Query;
use axum::http::Uri;

use audio_snip::mp4::parse_mp4_fragment_offsets;
use audio_snip::playlist::{encode_path, plan_playlist, playlist_reply_head, write_playlist, FragmentTiming};
use audio_snip::range::RangeHeader;
use audio_snip::server::{serve_transcoded, Status};
use audio_snip::transcode::{ReadOutcome, TranscodeSession};

fn mp4_box(kind: &[u8; 4], payload: usize) -> Vec<u8> {
    let mut b = ((payload + 8) as u32).to_be_bytes().to_vec();
    b.extend_from_slice(kind);
    b.resize(payload + 8, payload as u8);
    b
}

fn stream() -> Vec<u8> {
    [mp4_box(b"moov", 12), mp4_box(b"moof", 2), mp4_box(b"mdat", 22), mp4_box(b"moof", 1), mp4_box(b"mdat", 3)].concat()
}

fn timing(seconds: f64) -> FragmentTiming {
    FragmentTiming { seconds: format!("{seconds:.6}"), rounded_up: seconds.ceil() as u64 }
}

#[test]
fn paths_are_percent_encoded() {
    assert_eq!(encode_path("/v/a-b_c.mkv"), "/v/a-b_c.mkv");
    assert_eq!(encode_path("/v/A b+c&d=%.mkv"), "/v/A%20b%2Bc%26d%3D%25.mkv");
    assert_eq!(encode_path("\u{e9}~"), "%C3%A9%7E");
    assert_eq!(encode_path(""), "");
}

#[test]
fn encoded_paths_read_back() {
    for path in ["/v/a b.mkv", "/\u{1f3ac}/100%.avi", "?&#+\u{7f}"] {
        let encoded = encode_path(path);
        let mut bytes: Vec<u8> = Vec::new();
        let mut rest = encoded.as_bytes();
        while !rest.is_empty() {
            if rest[0] == b'%' {
                let hex = std::str::from_utf8(&rest[1..3]).unwrap();
                bytes.push(u8::from_str_radix(hex, 16).unwrap());
                rest = &rest[3..];
            } else {
                bytes.push(rest[0]);
                rest = &rest[1..];
            }
        }
        assert_eq!(String::from_utf8(bytes).unwrap(), path);
    }
}

/// The server reads the path of a video out of the URI that the playlist gives.
#[test]
fn server_reads_encoded_paths() {
    for path in ["/v/a b.mkv", "/\u{1f3ac}/100%+1.avi", "?&#=+;\u{7f}", "/v/plain.mkv"] {
        let uri: Uri = format!("/video?path={}", encode_path(path)).parse().unwrap();
        let query: Query<HashMap<String, String>> = Query::try_from_uri(&uri).unwrap();
        assert_eq!(query["path"], path);
    }
}

#[test]
fn final_playlist() {
    let bytes = stream();
    let plan = plan_playlist(&bytes, true, parse_mp4_fragment_offsets(&bytes)).unwrap();
    assert!(plan.complete());
    assert_eq!(plan.fragments(), 2);
    let text = write_playlist("/v/a b.mkv", &plan, &timing(5.0 / 2.0));
    assert_eq!(
        text,
        "#EXTM3U\n#EXT-X-VERSION:7\n#EXT-X-TARGETDURATION:3\n#EXT-X-PLAYLIST-TYPE:VOD\n#EXT-X-MEDIA-SEQUENCE:0\n\
         #EXT-X-MAP:URI=\"/video?path=/v/a%20b.mkv\",BYTERANGE=\"20@0\"\n\
         #EXTINF:2.500000,\n#EXT-X-BYTERANGE:40@20\n/video?path=/v/a%20b.mkv\n\
         #EXTINF:2.500000,\n#EXT-X-BYTERANGE:20@60\n/video?path=/v/a%20b.mkv\n\
         #EXT-X-ENDLIST\n"
    );
}

#[test]
fn growing_playlist_leaves_out_the_last_fragment() {
    let bytes = stream();
    let plan = plan_playlist(&bytes, false, parse_mp4_fragment_offsets(&bytes)).unwrap();
    assert!(!plan.complete());
    let text = write_playlist("a.mkv", &plan, &timing(0.5));
    assert_eq!(
        text,
        "#EXTM3U\n#EXT-X-VERSION:7\n#EXT-X-TARGETDURATION:10\n#EXT-X-PLAYLIST-TYPE:EVENT\n#EXT-X-MEDIA-SEQUENCE:0\n\
         #EXT-X-MAP:URI=\"/video?path=a.mkv\",BYTERANGE=\"20@0\"\n\
         #EXTINF:10.000000,\n#EXT-X-BYTERANGE:40@20\n/video?path=a.mkv\n"
    );
}

#[test]
fn running_playlist_only_grows() {
    let mut bytes = stream();
    bytes.extend_from_slice(&stream()[20..]);
    let text = |n: usize| {
        let plan = plan_playlist(&bytes[..n], false, parse_mp4_fragment_offsets(&bytes[..n])).ok()?;
        Some(write_playlist("a.mkv", &plan, &timing(n as f64)))
    };
    let mut before = String::new();
    for n in 0..=bytes.len() {
        match text(n) {
            Some(after) => {
                assert!(after.starts_with(&before));
                before = after;
            }
            None => assert!(before.is_empty()),
        }
    }
    assert_eq!(before.matches("#EXTINF").count(), 3);
}

#[test]
fn target_duration_is_at_least_one_second() {
    let bytes = stream();
    let plan = plan_playlist(&bytes, true, parse_mp4_fragment_offsets(&bytes)).unwrap();
    let text = write_playlist("a.mkv", &plan, &timing(0.0));
    assert!(text.contains("#EXT-X-TARGETDURATION:1\n"));
    assert!(text.contains("#EXTINF:0.000000,\n"));
}

#[test]
fn playlist_has_to_wait_for_a_fragment() {
    let bytes = stream();
    let plan = |n: usize, complete: bool| {
        plan_playlist(&bytes[..n], complete, parse_mp4_fragment_offsets(&bytes[..n]))
    };
    assert!(matches!(plan(0, false), Err(Status::ServiceUnavailable)));
    assert!(matches!(plan(20, true), Err(Status::ServiceUnavailable)));
    assert!(matches!(plan(30, false), Err(Status::ServiceUnavailable)));
    assert!(plan(30, true).is_ok());
    let headless = &bytes[20..];
    assert!(matches!(
        plan_playlist(headless, true, parse_mp4_fragment_offsets(headless)),
        Err(Status::ServiceUnavailable)
    ));
}

/// A player that follows the final playlist gets the whole transcode.
#[test]
fn player_gets_everything() {
    let bytes = stream();
    let mut session = TranscodeSession::new();
    session.after_read(ReadOutcome::Data(bytes.clone()));
    session.mark_complete();
    let offsets = session.get_fragment_offsets();
    let plan = plan_playlist(session.buffer(), session.complete(), offsets).unwrap();
    let text = write_playlist("a.mkv", &plan, &timing(1.0));
    let mut got: Vec<u8> = Vec::new();
    for line in text.lines() {
        let range = if let Some(rest) = line.strip_prefix("#EXT-X-BYTERANGE:") {
            rest
        } else if let Some((_, rest)) = line.split_once("BYTERANGE=\"") {
            rest.trim_end_matches('"')
        } else {
            continue;
        };
        let (len, start) = range.split_once('@').unwrap();
        let (len, start): (u64, u64) = (len.parse().unwrap(), start.parse().unwrap());
        let header = RangeHeader::Text(format!("bytes={}-{}", start, start + len - 1));
        let (_, body) = serve_transcoded(&session, &header).unwrap();
        assert_eq!(body.len() as u64, len);
        got.extend_from_slice(&body);
    }
    assert_eq!(got, bytes);
}

#[test]
fn head_of_a_playlist() {
    let head = playlist_reply_head();
    assert_eq!(head.status, Status::Success);
    assert_eq!(head.content_type, "application/vnd.apple.mpegurl");
    assert!(head.no_cache);
    assert!(!head.accept_ranges);
    assert!(head.content_length.is_none());
    assert!(head.content_range.is_none());
}
