//! What the tool accepts: video files, output formats and times of the form `HH:MM:SS`.

use vstd::prelude::*;
use vstd::string::*;
use vstd::utf8::*;

use crate::error::{failure, AppError, Failure};
use crate::number::{bounded_value, is_digit, parse_u32, unsigned_value, without_plus};
use crate::paths::{HostPath, PathView};
use crate::text::{
    ascii_lowered, joined_with, law_joined_pieces_are_split, law_split_counts_separators,
    law_split_is_undone_by_joining, lowercase, same_text, split, split_at_each, texts, to_lowercase,
};

verus! {

/// The formats that audio can be extracted to.
pub const ALLOWED_FORMATS: [&'static str; 3] = ["aac", "mp3", "ogg"];

/// The extensions of video files that are accepted, in lower case.
pub const ALLOWED_VIDEO_EXTENSIONS: [&'static str; 5] = ["mp4", "mov", "avi", "mkv", "webm"];

/// Whether audio can be extracted to `format`.
pub open spec fn is_output_format(format: Seq<char>) -> bool {
    format == "aac"@ || format == "mp3"@ || format == "ogg"@
}

/// Whether `ext` is the extension of a video that is accepted.
pub open spec fn is_video_extension(ext: Seq<char>) -> bool {
    ext == "mp4"@ || ext == "mov"@ || ext == "avi"@ || ext == "mkv"@ || ext == "webm"@
}

/// Whether a list of words holds the given one.
fn is_listed(words: &[&'static str], word: &str) -> (listed: bool)
    ensures
        listed == exists|i: int| 0 <= i < words@.len() && #[trigger] words@[i]@ == word@,
{
    let n: usize = words.len();
    for i in 0..n
        invariant
            n == words@.len(),
            forall|j: int| 0 <= j < i ==> #[trigger] words@[j]@ != word@,
    {
        if same_text(words[i], word) {
            return true;
        }
    }
    false
}

/// Whether `ext`, in lower case, is the extension of a video that is accepted.
pub fn validate_extension(ext: &str) -> (ok: bool)
    ensures
        ok == is_video_extension(ext@),
{
    let ghost list = ALLOWED_VIDEO_EXTENSIONS@;
    assert(list[0]@ == "mp4"@ && list[1]@ == "mov"@ && list[2]@ == "avi"@ && list[3]@ == "mkv"@
        && list[4]@ == "webm"@);
    is_listed(ALLOWED_VIDEO_EXTENSIONS.as_slice(), ext)
}

/// The extension of a path, in lower case.
pub open spec fn lower_extension(path: PathView) -> Option<Seq<char>> {
    match path.extension {
        Some(ext) => Some(lowercase(ext)),
        None => None,
    }
}

/// What lower case is for an extension of ASCII characters.
pub open spec fn lowers_ascii_extension(path: PathView) -> bool {
    path.extension matches Some(ext) ==> is_ascii_chars(ext) ==> lowercase(ext) == ascii_lowered(ext)
}

/// Finds the extension of a path, in lower case.
pub fn file_extension(path: &HostPath) -> (ext: Option<String>)
    ensures
        match ext {
            Some(e) => lower_extension(path@) == Some(e@),
            None => lower_extension(path@) is None,
        },
        lowers_ascii_extension(path@),
{
    match &path.extension {
        Some(e) => Some(to_lowercase(e.as_str())),
        None => None,
    }
}

/// What is wrong with a video at `path`, given its extension in lower case.
pub open spec fn video_failure(
    path: Seq<char>,
    exists_on_disk: bool,
    ext: Option<Seq<char>>,
) -> Option<Failure> {
    if !exists_on_disk {
        Some(Failure::FileNotFound(path))
    } else if ext is Some && is_video_extension(ext->0) {
        None
    } else {
        Some(Failure::UnsupportedVideoFormat(path))
    }
}

/// Checks a video whose extension, in lower case, is `ext`.
pub fn check_video(path: &str, exists_on_disk: bool, ext: Option<&str>) -> (result: Result<
    (),
    AppError,
>)
    ensures
        failure(result) == video_failure(
            path@,
            exists_on_disk,
            match ext {
                Some(e) => Some(e@),
                None => None,
            },
        ),
{
    if !exists_on_disk {
        return Err(AppError::FileNotFound(path.to_owned()));
    }
    if let Some(e) = ext {
        if validate_extension(e) {
            return Ok(());
        }
    }
    Err(AppError::UnsupportedVideoFormat(path.to_owned()))
}

/// Checks that there is a file at a path and that it has the extension of a video, in upper or
/// lower case. Whether the file exists is for the caller to find out.
pub fn validate_path(path: &HostPath, exists_on_disk: bool) -> (result: Result<(), AppError>)
    ensures
        failure(result) == video_failure(path@.text, exists_on_disk, lower_extension(path@)),
        lowers_ascii_extension(path@),
{
    match file_extension(path) {
        Some(ext) => check_video(path.text.as_str(), exists_on_disk, Some(ext.as_str())),
        None => check_video(path.text.as_str(), exists_on_disk, None),
    }
}

/// What is wrong with an output format.
pub open spec fn format_failure(format: Seq<char>) -> Option<Failure> {
    if is_output_format(format) {
        None
    } else {
        Some(Failure::UnsupportedOutputFormat(format))
    }
}

/// Checks an output format.
pub fn validate_format(format: &str) -> (result: Result<(), AppError>)
    ensures
        failure(result) == format_failure(format@),
{
    let ghost list = ALLOWED_FORMATS@;
    assert(list[0]@ == "aac"@ && list[1]@ == "mp3"@ && list[2]@ == "ogg"@);
    if is_listed(ALLOWED_FORMATS.as_slice(), format) {
        Ok(())
    } else {
        Err(AppError::UnsupportedOutputFormat(format.to_owned()))
    }
}

/// The hours, minutes and seconds of a time: three unsigned 32-bit numbers between colons.
pub open spec fn hms_fields(hms: Seq<char>) -> Option<(nat, nat, nat)> {
    let parts = split(hms, ':');
    if parts.len() != 3 {
        None
    } else {
        match (
            bounded_value(parts[0], u32::MAX as nat),
            bounded_value(parts[1], u32::MAX as nat),
            bounded_value(parts[2], u32::MAX as nat),
        ) {
            (Some(h), Some(m), Some(s)) => Some((h, m, s)),
            _ => None,
        }
    }
}

/// What is wrong with a time: it does not have three fields, or minutes or seconds are over 59.
pub open spec fn time_failure(hms: Seq<char>) -> Option<Failure> {
    match hms_fields(hms) {
        None => Some(Failure::InvalidTimeFormat(hms)),
        Some((h, m, s)) => if m >= 60 || s >= 60 {
            Some(Failure::InvalidTimeRange(hms))
        } else {
            None
        },
    }
}

/// How many seconds a valid time is.
pub open spec fn seconds_of(hms: Seq<char>) -> nat {
    match hms_fields(hms) {
        Some((h, m, s)) => h * 3600 + m * 60 + s,
        None => 0,
    }
}

/// Reads a time of the form `HH:MM:SS` as a number of seconds.
pub fn hms_to_seconds(hms: &str) -> (result: Result<u64, AppError>)
    ensures
        failure(result) == time_failure(hms@),
        result matches Ok(secs) ==> secs == seconds_of(hms@),
        result matches Ok(secs) ==> secs <= u32::MAX * 3600 + 59 * 60 + 59,
{
    let parts: Vec<Vec<char>> = split_at_each(hms, ':');
    let ghost pieces = split(hms@, ':');
    assert(texts(parts@).len() == parts@.len());
    if parts.len() != 3 {
        return Err(AppError::InvalidTimeFormat(hms.to_owned()));
    }
    assert(texts(parts@)[0] == parts@[0]@ && texts(parts@)[1] == parts@[1]@ && texts(parts@)[2]
        == parts@[2]@);
    let h: u32 = match parse_u32(parts[0].as_slice()) {
        Some(v) => v,
        None => return Err(AppError::InvalidTimeFormat(hms.to_owned())),
    };
    let m: u32 = match parse_u32(parts[1].as_slice()) {
        Some(v) => v,
        None => return Err(AppError::InvalidTimeFormat(hms.to_owned())),
    };
    let s: u32 = match parse_u32(parts[2].as_slice()) {
        Some(v) => v,
        None => return Err(AppError::InvalidTimeFormat(hms.to_owned())),
    };
    if m >= 60 || s >= 60 {
        return Err(AppError::InvalidTimeRange(hms.to_owned()));
    }
    Ok(h as u64 * 3600 + m as u64 * 60 + s as u64)
}

/// A number holds no colon.
proof fn lemma_number_has_no_colon(s: Seq<char>)
    requires
        unsigned_value(s) is Some,
    ensures
        !s.contains(':'),
{
    assert forall|i: int| 0 <= i < s.len() implies s[i] != ':' by {
        if s[0] == '+' {
            if i > 0 {
                assert(without_plus(s)[i - 1] == s[i]);
            }
        } else {
            assert(is_digit(without_plus(s)[i]));
        }
    }
}

/// Three numbers between colons, with or without leading zeros, are a time of so many hours,
/// minutes and seconds.
pub proof fn law_time_is_read(h: Seq<char>, m: Seq<char>, s: Seq<char>)
    requires
        unsigned_value(h) matches Some(hours) && hours <= u32::MAX,
        unsigned_value(m) matches Some(minutes) && minutes < 60,
        unsigned_value(s) matches Some(seconds) && seconds < 60,
    ensures
        time_failure(h.push(':') + m.push(':') + s) is None,
        seconds_of(h.push(':') + m.push(':') + s) == unsigned_value(h)->0 * 3600 + unsigned_value(m)->0
            * 60 + unsigned_value(s)->0,
{
    let parts = seq![h, m, s];
    let text = h.push(':') + m.push(':') + s;
    lemma_number_has_no_colon(h);
    lemma_number_has_no_colon(m);
    lemma_number_has_no_colon(s);
    assert(joined_with(parts, ':') == text) by {
        let two = parts.drop_last();
        let one = two.drop_last();
        assert(two =~= seq![h, m]);
        assert(one =~= seq![h]);
        assert(joined_with(one, ':') == h);
        assert(joined_with(two, ':') == h.push(':') + m);
        assert((h.push(':') + m).push(':') + s =~= text);
    }
    law_joined_pieces_are_split(parts, ':');
}

/// Checks a time of the form `HH:MM:SS`.
pub fn validate_time(time: &str) -> (result: Result<(), AppError>)
    ensures
        failure(result) == time_failure(time@),
{
    match hms_to_seconds(time) {
        Ok(_) => Ok(()),
        Err(e) => Err(e),
    }
}

/// Whether a browser cannot play files with the extension `ext`.
pub open spec fn is_unplayable(ext: Seq<char>) -> bool {
    ext == "avi"@ || ext == "mkv"@
}

/// Whether a video has to be transcoded before a browser can play it.
pub fn needs_transcode(ext: &str) -> (yes: bool)
    ensures
        yes == is_unplayable(ext@),
{
    same_text(ext, "avi") || same_text(ext, "mkv")
}

/// Whether browsers decode the video codec themselves.
pub open spec fn is_browser_codec(codec: Seq<char>) -> bool {
    codec == "h264"@ || codec == "vp8"@ || codec == "vp9"@ || codec == "av1"@
}

/// Tests whether browsers decode the video codec themselves.
pub fn is_browser_compatible_video_codec(codec: &str) -> (yes: bool)
    ensures
        yes == is_browser_codec(codec@),
{
    same_text(codec, "h264") || same_text(codec, "vp8") || same_text(codec, "vp9") || same_text(
        codec,
        "av1",
    )
}

/// The FFmpeg audio codec for an output format. AAC that is there already is copied.
pub open spec fn output_codec(format: Seq<char>, source: Option<Seq<char>>) -> Seq<char> {
    if format == "aac"@ {
        if source == Some("aac"@) {
            "copy"@
        } else {
            "aac"@
        }
    } else if format == "mp3"@ {
        "libmp3lame"@
    } else {
        "libopus"@
    }
}

/// Picks the FFmpeg audio codec for an output format, given the codec of the source.
pub fn codec_for_format(format: &str, source_codec: Option<&str>) -> (codec: &'static str)
    requires
        is_output_format(format@),
    ensures
        codec@ == output_codec(
            format@,
            match source_codec {
                Some(c) => Some(c@),
                None => None,
            },
        ),
{
    if same_text(format, "aac") {
        match source_codec {
            Some(c) => if same_text(c, "aac") {
                "copy"
            } else {
                "aac"
            },
            None => "aac",
        }
    } else if same_text(format, "mp3") {
        "libmp3lame"
    } else {
        "libopus"
    }
}

/// The media type of a video with the extension `ext`.
pub open spec fn media_type(ext: Seq<char>) -> Seq<char> {
    if ext == "mp4"@ {
        "video/mp4"@
    } else if ext == "webm"@ {
        "video/webm"@
    } else if ext == "mov"@ {
        "video/quicktime"@
    } else if ext == "avi"@ {
        "video/x-msvideo"@
    } else if ext == "mkv"@ {
        "video/x-matroska"@
    } else {
        "application/octet-stream"@
    }
}

/// Picks the media type of a video.
pub fn content_type_for(ext: &str) -> (media: &'static str)
    ensures
        media@ == media_type(ext@),
{
    if same_text(ext, "mp4") {
        "video/mp4"
    } else if same_text(ext, "webm") {
        "video/webm"
    } else if same_text(ext, "mov") {
        "video/quicktime"
    } else if same_text(ext, "avi") {
        "video/x-msvideo"
    } else if same_text(ext, "mkv") {
        "video/x-matroska"
    } else {
        "application/octet-stream"
    }
}

/// Three texts between colons are the fields of a time.
proof fn lemma_three_fields(h: Seq<char>, m: Seq<char>, s: Seq<char>)
    requires
        !h.contains(':'),
        !m.contains(':'),
        !s.contains(':'),
    ensures
        split(h.push(':') + m.push(':') + s, ':') == seq![h, m, s],
{
    let parts = seq![h, m, s];
    let text = h.push(':') + m.push(':') + s;
    let two = parts.drop_last();
    let one = two.drop_last();
    assert(two =~= seq![h, m]);
    assert(one =~= seq![h]);
    assert(joined_with(one, ':') == h);
    assert(joined_with(two, ':') == h.push(':') + m);
    assert((h.push(':') + m).push(':') + s =~= text);
    assert(joined_with(parts, ':') == text);
    law_joined_pieces_are_split(parts, ':');
}

/// Three texts between colons are a time if each is a number of 32 bits and minutes and seconds are
/// under 60; the time is then so many seconds. With larger minutes or seconds the range is wrong,
/// and otherwise the format.
pub proof fn law_time_of_three_texts(h: Seq<char>, m: Seq<char>, s: Seq<char>)
    requires
        !h.contains(':'),
        !m.contains(':'),
        !s.contains(':'),
    ensures
        ({
            let text = h.push(':') + m.push(':') + s;
            match (unsigned_value(h), unsigned_value(m), unsigned_value(s)) {
                (Some(a), Some(b), Some(c)) => if a > u32::MAX || b > u32::MAX || c > u32::MAX {
                    time_failure(text) == Some(Failure::InvalidTimeFormat(text))
                } else if b > 59 || c > 59 {
                    time_failure(text) == Some(Failure::InvalidTimeRange(text))
                } else {
                    time_failure(text) is None && seconds_of(text) == 3600 * a + 60 * b + c
                },
                _ => time_failure(text) == Some(Failure::InvalidTimeFormat(text)),
            }
        }),
{
    lemma_three_fields(h, m, s);
    let parts = seq![h, m, s];
    assert(parts[0] == h && parts[1] == m && parts[2] == s);
}

/// A text that does not hold two colons is no time, and one that does is three texts between them.
pub proof fn law_time_has_two_colons(hms: Seq<char>)
    ensures
        hms.filter(|c: char| c == ':').len() != 2 ==> time_failure(hms) == Some(
            Failure::InvalidTimeFormat(hms),
        ),
        hms.filter(|c: char| c == ':').len() == 2 ==> exists|h: Seq<char>, m: Seq<char>, s: Seq<char>|
            !h.contains(':') && !m.contains(':') && !s.contains(':') && hms == #[trigger] (h.push(':')
                + m.push(':') + s),
{
    law_split_counts_separators(hms, ':');
    if hms.filter(|c: char| c == ':').len() == 2 {
        law_split_is_undone_by_joining(hms, ':');
        let parts = split(hms, ':');
        let (h, m, s) = (parts[0], parts[1], parts[2]);
        let two = parts.drop_last();
        let one = two.drop_last();
        assert(joined_with(one, ':') == h);
        assert(joined_with(two, ':') == h.push(':') + m);
        assert((h.push(':') + m).push(':') + s =~= h.push(':') + m.push(':') + s);
        assert(hms == h.push(':') + m.push(':') + s);
    }
}

/// Five extensions are those of videos that are accepted; the list that is offered holds them.
pub proof fn law_accepted_extensions(ext: Seq<char>)
    ensures
        is_video_extension(ext) <==> exists|i: int|
            0 <= i < 5 && (#[trigger] ALLOWED_VIDEO_EXTENSIONS@[i])@ == ext,
        is_video_extension(ext) <==> ext == seq!['m', 'p', '4'] || ext == seq!['m', 'o', 'v'] || ext
            == seq!['a', 'v', 'i'] || ext == seq!['m', 'k', 'v'] || ext == seq!['w', 'e', 'b', 'm'],
{
    reveal_strlit("mp4");
    reveal_strlit("mov");
    reveal_strlit("avi");
    reveal_strlit("mkv");
    reveal_strlit("webm");
    let list = ALLOWED_VIDEO_EXTENSIONS@;
    assert(list[0]@ == "mp4"@ && list[1]@ == "mov"@ && list[2]@ == "avi"@ && list[3]@ == "mkv"@
        && list[4]@ == "webm"@);
    assert("mp4"@ =~= seq!['m', 'p', '4']);
    assert("mov"@ =~= seq!['m', 'o', 'v']);
    assert("avi"@ =~= seq!['a', 'v', 'i']);
    assert("mkv"@ =~= seq!['m', 'k', 'v']);
    assert("webm"@ =~= seq!['w', 'e', 'b', 'm']);
}

/// Three formats are offered for the output, and every other one is refused by name.
pub proof fn law_accepted_formats(format: Seq<char>)
    ensures
        is_output_format(format) <==> exists|i: int|
            0 <= i < 3 && (#[trigger] ALLOWED_FORMATS@[i])@ == format,
        is_output_format(format) <==> format == seq!['a', 'a', 'c'] || format == seq!['m', 'p', '3']
            || format == seq!['o', 'g', 'g'],
        format_failure(format) is None <==> format == seq!['a', 'a', 'c'] || format == seq![
            'm',
            'p',
            '3',
        ] || format == seq!['o', 'g', 'g'],
        format_failure(format) matches Some(f) ==> f == Failure::UnsupportedOutputFormat(format),
{
    reveal_strlit("aac");
    reveal_strlit("mp3");
    reveal_strlit("ogg");
    let list = ALLOWED_FORMATS@;
    assert(list[0]@ == "aac"@ && list[1]@ == "mp3"@ && list[2]@ == "ogg"@);
    assert("aac"@ =~= seq!['a', 'a', 'c']);
    assert("mp3"@ =~= seq!['m', 'p', '3']);
    assert("ogg"@ =~= seq!['o', 'g', 'g']);
}

/// A video is accepted exactly if it exists and its extension, in lower case, is one of those that
/// are accepted. If it does not exist that is what is wrong, whatever its extension, and otherwise
/// it is the format; either way the path is named.
pub proof fn law_accepted_videos(path: PathView, exists_on_disk: bool)
    ensures
        ({
            let failure = video_failure(path.text, exists_on_disk, lower_extension(path));
            let accepted = match path.extension {
                Some(ext) => exists|i: int|
                    0 <= i < 5 && (#[trigger] ALLOWED_VIDEO_EXTENSIONS@[i])@ == lowercase(ext),
                None => false,
            };
            &&& !exists_on_disk ==> failure == Some(Failure::FileNotFound(path.text))
            &&& exists_on_disk && accepted ==> failure is None
            &&& exists_on_disk && !accepted ==> failure == Some(
                Failure::UnsupportedVideoFormat(path.text),
            )
        }),
{
    if let Some(ext) = path.extension {
        law_accepted_extensions(lowercase(ext));
    }
}

/// The audio is copied only if it is AAC already and AAC is wanted; in every other case it is
/// encoded, by the encoder that goes with the format alone.
pub proof fn law_audio_is_copied_only_to_its_own_format(
    format: Seq<char>,
    source: Option<Seq<char>>,
    other: Option<Seq<char>>,
)
    requires
        is_output_format(format),
    ensures
        output_codec(format, source) == "copy"@ <==> format == "aac"@ && source == Some("aac"@),
        output_codec(format, source) != "copy"@ ==> {
            &&& format == "aac"@ ==> output_codec(format, source) == "aac"@
            &&& format == "mp3"@ ==> output_codec(format, source) == "libmp3lame"@
            &&& format == "ogg"@ ==> output_codec(format, source) == "libopus"@
        },
        output_codec(format, source) != "copy"@ && output_codec(format, other) != "copy"@
            ==> output_codec(format, source) == output_codec(format, other),
{
    reveal_strlit("aac");
    reveal_strlit("mp3");
    reveal_strlit("ogg");
    reveal_strlit("copy");
    reveal_strlit("libmp3lame");
    reveal_strlit("libopus");
    assert("aac"@[0] == 'a' && "mp3"@[0] == 'm' && "ogg"@[0] == 'o' && "copy"@[0] == 'c');
    assert("libmp3lame"@[0] == 'l' && "libopus"@[0] == 'l');
}

/// Of the videos that are accepted a browser cannot play those in AVI and Matroska containers, and
/// plays all others.
pub proof fn law_unplayable_extensions(ext: Seq<char>)
    ensures
        is_unplayable(ext) <==> ext == seq!['a', 'v', 'i'] || ext == seq!['m', 'k', 'v'],
        is_unplayable(ext) ==> is_video_extension(ext),
{
    reveal_strlit("avi");
    reveal_strlit("mkv");
    assert("avi"@ =~= seq!['a', 'v', 'i']);
    assert("mkv"@ =~= seq!['m', 'k', 'v']);
}

/// Browsers decode four video codecs.
pub proof fn law_browser_codecs(codec: Seq<char>)
    ensures
        is_browser_codec(codec) <==> codec == seq!['h', '2', '6', '4'] || codec == seq!['v', 'p', '8']
            || codec == seq!['v', 'p', '9'] || codec == seq!['a', 'v', '1'],
{
    reveal_strlit("h264");
    reveal_strlit("vp8");
    reveal_strlit("vp9");
    reveal_strlit("av1");
    assert("h264"@ =~= seq!['h', '2', '6', '4']);
    assert("vp8"@ =~= seq!['v', 'p', '8']);
    assert("vp9"@ =~= seq!['v', 'p', '9']);
    assert("av1"@ =~= seq!['a', 'v', '1']);
}

/// Every video that is accepted has the media type of its container; anything else is bytes.
pub proof fn law_media_types(ext: Seq<char>)
    ensures
        ext == seq!['m', 'p', '4'] ==> media_type(ext) == "video/mp4"@,
        ext == seq!['w', 'e', 'b', 'm'] ==> media_type(ext) == "video/webm"@,
        ext == seq!['m', 'o', 'v'] ==> media_type(ext) == "video/quicktime"@,
        ext == seq!['a', 'v', 'i'] ==> media_type(ext) == "video/x-msvideo"@,
        ext == seq!['m', 'k', 'v'] ==> media_type(ext) == "video/x-matroska"@,
        !is_video_extension(ext) ==> media_type(ext) == "application/octet-stream"@,
{
    reveal_strlit("mp4");
    reveal_strlit("mov");
    reveal_strlit("avi");
    reveal_strlit("mkv");
    reveal_strlit("webm");
    assert("mp4"@ =~= seq!['m', 'p', '4']);
    assert("mov"@ =~= seq!['m', 'o', 'v']);
    assert("avi"@ =~= seq!['a', 'v', 'i']);
    assert("mkv"@ =~= seq!['m', 'k', 'v']);
    assert("webm"@ =~= seq!['w', 'e', 'b', 'm']);
    assert("mp4"@[2] == '4' && "mov"@[2] == 'v' && "mov"@[1] == 'o' && "avi"@[2] == 'i' && "mkv"@[1]
        == 'k' && "webm"@.len() == 4);
}

} // verus!
