use std::path::Path;

use audio_snip::error::AppError;
use audio_snip::output::{build_output_path, output_file_name};
use audio_snip::paths::{path_extension, path_file_stem, path_join, path_parent, read_unix_path, HostPath};

#[test]
fn uc003_build_output_path_basic() {
    let result = build_output_path(&read_unix_path("/tmp/video.mp4"), "mp3", "").unwrap().to_unix_path();
    assert_eq!(result, "/tmp/video-audio.mp3");
}

#[test]
fn uc003_build_output_path_with_suffix() {
    let result = build_output_path(&read_unix_path("/tmp/video.mp4"), "aac", "intro").unwrap().to_unix_path();
    assert_eq!(result, "/tmp/video-intro-audio.aac");
}

#[test]
fn uc003_build_output_path_empty_suffix() {
    let result = build_output_path(&read_unix_path("/home/user/my_video.mkv"), "ogg", "").unwrap().to_unix_path();
    assert_eq!(result, "/home/user/my_video-audio.ogg");
}

/// Path separators in the suffix are stripped to prevent path traversal.
#[test]
fn uc003_build_output_path_sanitizes_path_separators() {
    let result = build_output_path(&read_unix_path("/tmp/video.mp4"), "mp3", "foo/../../etc").unwrap().to_unix_path();
    assert_eq!(result, "/tmp/video-foo....etc-audio.mp3");
}

#[test]
fn uc003_build_output_path_sanitizes_backslash() {
    let result = build_output_path(&read_unix_path("/tmp/video.mp4"), "mp3", "a\\b").unwrap().to_unix_path();
    assert_eq!(result, "/tmp/video-ab-audio.mp3");
}

#[test]
fn uc003_build_output_path_sanitizes_null_byte() {
    let result = build_output_path(&read_unix_path("/tmp/video.mp4"), "mp3", "a\0b").unwrap().to_unix_path();
    assert_eq!(result, "/tmp/video-ab-audio.mp3");
}

#[test]
fn suffix_of_separators_only_is_no_suffix() {
    let result = build_output_path(&read_unix_path("/tmp/video.mp4"), "mp3", "/\\\0").unwrap();
    assert_eq!(result.to_unix_path(), "/tmp/video-audio.mp3");
}

#[test]
fn output_stays_in_the_directory_of_the_video() {
    for video in ["video.mp4", "./video.mp4", "a/b/video.mp4", "/video.mp4", "a//video.mp4/.", "../v.mkv"] {
        for append in ["", "..", "../..", "/etc/passwd", "x"] {
            let out = build_output_path(&read_unix_path(video), "ogg", append).unwrap().to_unix_path();
            assert_eq!(Path::new(&out).parent(), Path::new(video).parent(), "{video} {append}");
            assert_eq!(Path::new(&out).extension().unwrap(), "ogg");
            assert_ne!(out, video);
        }
    }
}

#[test]
fn paths_without_directory_or_name_have_no_output() {
    for root in ["", "/", "//", "/."] {
        let result = build_output_path(&read_unix_path(root), "mp3", "");
        assert!(matches!(&result, Err(AppError::Io(m)) if m == "Cannot determine parent directory"));
    }
    for nameless in [".", "..", "/tmp/..", "./", "a/../"] {
        let result = build_output_path(&read_unix_path(nameless), "mp3", "");
        assert!(matches!(&result, Err(AppError::Io(m)) if m == "Cannot determine filename"));
    }
}

/// On any host the output goes to the directory that the host finds, under its own name.
#[test]
fn host_decides_on_the_directory() {
    let mut path = HostPath {
        text: "C:\\v\\clip.mp4".to_string(),
        parent: Some("C:\\v".to_string()),
        file_stem: Some("clip".to_string()),
        extension: Some("mp4".to_string()),
    };
    let out = build_output_path(&path, "aac", "x").unwrap();
    assert_eq!((out.dir.as_str(), out.name.as_str()), ("C:\\v", "clip-x-audio.aac"));
    path.file_stem = None;
    let result = build_output_path(&path, "aac", "x");
    assert!(matches!(&result, Err(AppError::Io(m)) if m == "Cannot determine filename"));
    path.parent = None;
    let result = build_output_path(&path, "aac", "x");
    assert!(matches!(&result, Err(AppError::Io(m)) if m == "Cannot determine parent directory"));
}

/// Not even a video that has the name of an output is written over.
#[test]
fn output_has_its_own_name() {
    for video in ["/tmp/a-audio.mp3", "/tmp/a.mp3", "/tmp/a", "/tmp/a-audio"] {
        let out = build_output_path(&read_unix_path(video), "mp3", "").unwrap().to_unix_path();
        assert_ne!(out, video);
    }
}

#[test]
fn output_names() {
    assert_eq!(output_file_name("clip", "aac", ""), "clip-audio.aac");
    assert_eq!(output_file_name("clip", "aac", "a/b"), "clip-ab-audio.aac");
    assert_eq!(output_file_name("", "", ""), "-audio.");
}

/// The lexical operations agree with the standard library on every short path.
#[test]
fn paths_agree_with_standard_library() {
    let alphabet = ['/', '.', 'a', '-'];
    let mut words: Vec<String> = vec![String::new()];
    let mut from = 0;
    for _ in 0..6 {
        let to = words.len();
        for i in from..to {
            for c in alphabet {
                let mut longer = words[i].clone();
                longer.push(c);
                words.push(longer);
            }
        }
        from = to;
    }
    assert_eq!(words.len(), 5461);
    for w in &words {
        let p = Path::new(w);
        let parent = p.parent().map(|d| d.to_str().unwrap().to_string());
        let stem = p.file_stem().map(|s| s.to_str().unwrap().to_string());
        let extension = p.extension().map(|e| e.to_str().unwrap().to_string());
        assert_eq!(path_parent(w), parent, "parent of {w}");
        assert_eq!(path_file_stem(w), stem, "stem of {w}");
        assert_eq!(path_extension(w), extension, "extension of {w}");
        for name in ["x", "/x", "", ".x"] {
            assert_eq!(path_join(w, name), p.join(name).to_str().unwrap(), "{w} joined with {name}");
        }
    }
}

#[test]
fn paths_hold_any_character() {
    assert_eq!(path_extension("/vid\u{e9}os/\u{1f3ac}.m\u{e9}").unwrap(), "m\u{e9}");
    assert_eq!(path_parent("/vid\u{e9}os/\u{1f3ac}.mp4").unwrap(), "/vid\u{e9}os");
    assert_eq!(path_file_stem("/vid\u{e9}os/\u{1f3ac}.mp4").unwrap(), "\u{1f3ac}");
}
