//! Finding FFmpeg and asking `ffprobe` about a video.

use vstd::prelude::*;
use vstd::string::*;
use vstd::utf8::*;

use crate::args::{add_words, words};
use crate::error::{failure, joined, AppError, Failure};
use crate::paths::{HostPath, PathView};
use crate::rules::{
    file_extension, is_unplayable, law_unplayable_extensions, lower_extension, lowers_ascii_extension,
    needs_transcode, validate_path, video_failure,
};
use crate::text::{from_utf8_lossy, lowercase, trim, trimmed, utf8_lossy};

verus! {

/// The operating systems that are told apart when a program is looked for.
#[derive(Debug, Clone, Copy, PartialEq, Eq, Structural)]
pub enum HostOs {
    MacOs,
    Linux,
    Other,
}

/// The directories in which a program is looked for, first to last. On macOS a program that the
/// Finder starts does not get the path of Homebrew, so the usual places are named.
pub open spec fn search_dirs(os: HostOs) -> Seq<Seq<char>> {
    match os {
        HostOs::MacOs => seq!["/opt/homebrew/bin"@, "/usr/local/bin"@],
        HostOs::Linux => seq!["/usr/local/bin"@, "/usr/bin"@],
        HostOs::Other => Seq::empty(),
    }
}

/// The `i`-th place where a program may be.
pub open spec fn candidate(os: HostOs, name: Seq<char>, i: int) -> Seq<char> {
    search_dirs(os)[i] + "/"@ + name
}

/// Lists the places where a program may be, in the order in which they are tried.
pub fn command_candidates(os: HostOs, name: &str) -> (paths: Vec<String>)
    ensures
        paths@.len() == search_dirs(os).len(),
        forall|i: int| 0 <= i < paths@.len() ==> #[trigger] paths@[i]@ == candidate(os, name@, i),
{
    let mut paths: Vec<String> = Vec::new();
    match os {
        HostOs::MacOs => {
            paths.push(joined("/opt/homebrew/bin", "/").concat(name));
            paths.push(joined("/usr/local/bin", "/").concat(name));
        },
        HostOs::Linux => {
            paths.push(joined("/usr/local/bin", "/").concat(name));
            paths.push(joined("/usr/bin", "/").concat(name));
        },
        HostOs::Other => {},
    }
    paths
}

/// Whether the program is at the `i`-th place.
pub open spec fn is_installed(os: HostOs, installed: Seq<bool>, i: int) -> bool {
    0 <= i < search_dirs(os).len() && i < installed.len() && installed[i]
}

/// Where a program is called: the first place, from the `i`-th on, at which it is, and its bare
/// name when it is at none.
pub open spec fn located(os: HostOs, name: Seq<char>, installed: Seq<bool>, i: int) -> Seq<char>
    decreases search_dirs(os).len() - i,
{
    if i >= search_dirs(os).len() {
        name
    } else if is_installed(os, installed, i) {
        candidate(os, name, i)
    } else {
        located(os, name, installed, i + 1)
    }
}

/// Picks the first place at which a program is, and its bare name when it is at none. What is
/// at each place, in the order of `command_candidates`, is for the caller to find out.
pub fn find_command(os: HostOs, name: &str, installed: &[bool]) -> (command: String)
    ensures
        command@ == located(os, name@, installed@, 0),
{
    let paths: Vec<String> = command_candidates(os, name);
    let n: usize = paths.len();
    for k in 0..n
        invariant
            n == paths@.len(),
            paths@.len() == search_dirs(os).len(),
            forall|i: int| 0 <= i < paths@.len() ==> #[trigger] paths@[i]@ == candidate(os, name@, i),
            located(os, name@, installed@, k as int) == located(os, name@, installed@, 0),
    {
        if k < installed.len() && installed[k] {
            return paths[k].clone();
        }
    }
    name.to_owned()
}

/// Picks where FFmpeg is called.
pub fn ffmpeg_path(os: HostOs, installed: &[bool]) -> (command: String)
    ensures
        command@ == located(os, "ffmpeg"@, installed@, 0),
{
    find_command(os, "ffmpeg", installed)
}

/// Picks where `ffprobe` is called.
pub fn ffprobe_path(os: HostOs, installed: &[bool]) -> (command: String)
    ensures
        command@ == located(os, "ffprobe"@, installed@, 0),
{
    find_command(os, "ffprobe", installed)
}

/// The `ffprobe` arguments that print the codec of the selected stream.
pub open spec fn codec_query(stream: Seq<char>, path: Seq<char>) -> Seq<Seq<char>> {
    seq![
        "-v"@,
        "error"@,
        "-select_streams"@,
        stream,
        "-show_entries"@,
        "stream=codec_name"@,
        "-of"@,
        "default=noprint_wrappers=1:nokey=1"@,
        path,
    ]
}

/// Asks for the codec of the selected stream.
fn codec_args(stream: &str, path: &str) -> (args: Vec<String>)
    ensures
        words(args@) == codec_query(stream@, path@),
{
    let mut args: Vec<String> = Vec::new();
    let list: [&str; 9] = [
        "-v",
        "error",
        "-select_streams",
        stream,
        "-show_entries",
        "stream=codec_name",
        "-of",
        "default=noprint_wrappers=1:nokey=1",
        path,
    ];
    add_words(&mut args, list.as_slice());
    assert(words(args@) =~= codec_query(stream@, path@));
    args
}

/// The `ffprobe` arguments that print the codec of the first video stream.
pub fn video_codec_args(path: &str) -> (args: Vec<String>)
    ensures
        words(args@) == codec_query("v:0"@, path@),
{
    codec_args("v:0", path)
}

/// The `ffprobe` arguments that print the codec of the first audio stream.
pub fn audio_codec_args(path: &str) -> (args: Vec<String>)
    ensures
        words(args@) == codec_query("a:0"@, path@),
{
    codec_args("a:0", path)
}

/// The `ffprobe` arguments that print the duration of a file.
pub open spec fn duration_query(path: Seq<char>) -> Seq<Seq<char>> {
    seq![
        "-v"@,
        "error"@,
        "-show_entries"@,
        "format=duration"@,
        "-of"@,
        "default=noprint_wrappers=1:nokey=1"@,
        path,
    ]
}

/// Asks for the duration of a file.
pub fn duration_args(path: &str) -> (args: Vec<String>)
    ensures
        words(args@) == duration_query(path@),
{
    let mut args: Vec<String> = Vec::new();
    let list: [&str; 7] = [
        "-v",
        "error",
        "-show_entries",
        "format=duration",
        "-of",
        "default=noprint_wrappers=1:nokey=1",
        path,
    ];
    add_words(&mut args, list.as_slice());
    assert(words(args@) =~= duration_query(path@));
    args
}

/// What a run of `ffprobe` left: whether it succeeded, and what it printed.
pub struct ProbeRun {
    pub success: bool,
    pub stdout: Vec<u8>,
}

/// The answer in what a probe printed: the text without white space around it. A probe that was
/// not started or did not succeed has no answer.
pub open spec fn probe_answer(run: Option<ProbeRun>) -> Option<Seq<char>> {
    match run {
        Some(r) => if r.success {
            Some(trimmed(utf8_lossy(r.stdout@)))
        } else {
            None
        },
        None => None,
    }
}

/// What the bytes of a run stand for when they are well-formed UTF-8.
pub open spec fn decodes_plainly(run: Option<ProbeRun>) -> bool {
    run matches Some(r) ==> r.success ==> valid_utf8(r.stdout@) ==> utf8_lossy(r.stdout@)
        == decode_utf8(r.stdout@)
}

/// The answer of a probe, when it is not empty.
pub open spec fn named(answer: Option<Seq<char>>) -> Option<Seq<char>> {
    match answer {
        Some(text) => if text.len() == 0 {
            None
        } else {
            Some(text)
        },
        None => None,
    }
}

/// Reads the answer of a probe: the duration, for a duration probe.
pub fn read_answer(run: &Option<ProbeRun>) -> (answer: Option<String>)
    ensures
        match answer {
            Some(a) => probe_answer(*run) == Some(a@),
            None => probe_answer(*run) is None,
        },
        decodes_plainly(*run),
{
    match run {
        Some(r) => if r.success {
            let printed: String = from_utf8_lossy(r.stdout.as_slice());
            Some(trim(printed.as_str()))
        } else {
            None
        },
        None => None,
    }
}

/// The codec that an answer names: none when the answer is empty.
pub fn codec_named(answer: Option<String>) -> (codec: Option<String>)
    ensures
        match codec {
            Some(c) => answer matches Some(a) && c@ == a@ && a@.len() > 0,
            None => answer matches Some(a) ==> a@.len() == 0,
        },
{
    match answer {
        Some(text) => if text.as_str().is_empty() {
            None
        } else {
            Some(text)
        },
        None => None,
    }
}

/// Reads the codec that a codec probe printed.
pub fn read_codec(run: &Option<ProbeRun>) -> (codec: Option<String>)
    ensures
        match codec {
            Some(c) => named(probe_answer(*run)) == Some(c@),
            None => named(probe_answer(*run)) is None,
        },
        decodes_plainly(*run),
{
    codec_named(read_answer(run))
}

/// A time span in seconds, as the bits of a 64-bit IEEE 754 number. The span is kept and handed
/// on; nothing here computes with it.
#[derive(Debug, Clone, Copy, PartialEq, Eq, Structural)]
pub struct Seconds {
    pub bits: u64,
}

/// The bits of 0.0.
pub const ZERO_SECONDS: u64 = 0;

/// The bits of 1.0.
pub const ONE_SECOND: u64 = 0x3ff0_0000_0000_0000;

/// What is known of a video.
#[derive(Debug)]
pub struct VideoMetadata {
    pub duration_secs: Seconds,
    pub file_size_bytes: u64,
    pub audio_codec: Option<String>,
    pub needs_transcode: bool,
}

/// Whether a video with the given extension, in lower case, has to be transcoded.
pub open spec fn has_unplayable_extension(ext: Option<Seq<char>>) -> bool {
    match ext {
        Some(e) => is_unplayable(e),
        None => is_unplayable(Seq::empty()),
    }
}

/// Whether the video at a path has to be transcoded before a browser can play it.
pub fn path_needs_transcode(path: &HostPath) -> (yes: bool)
    ensures
        yes == has_unplayable_extension(lower_extension(path@)),
        lowers_ascii_extension(path@),
{
    let ext: String = match file_extension(path) {
        Some(e) => e,
        None => String::new(),
    };
    needs_transcode(ext.as_str())
}

/// What stops a video from being described: its path is not valid, or its size could not be read.
pub open spec fn metadata_failure(
    path: PathView,
    exists_on_disk: bool,
    size: Result<u64, String>,
) -> Option<Failure> {
    match video_failure(path.text, exists_on_disk, lower_extension(path)) {
        Some(failure) => Some(failure),
        None => match size {
            Err(cause) => Some(Failure::Io("Cannot read file metadata: "@ + cause@)),
            Ok(_) => None,
        },
    }
}

/// Checks a video and puts together what is known of it. A duration that is not known counts as 0,
/// and a codec that is not known is no error; a size that could not be read is.
pub fn get_video_metadata(
    path: &HostPath,
    exists_on_disk: bool,
    duration: Option<Seconds>,
    size: Result<u64, String>,
    audio_codec: Option<String>,
) -> (result: Result<VideoMetadata, AppError>)
    ensures
        failure(result) == metadata_failure(path@, exists_on_disk, size),
        result matches Ok(metadata) ==> {
            &&& metadata.duration_secs == match duration {
                Some(d) => d,
                None => (Seconds { bits: ZERO_SECONDS }),
            }
            &&& size == Ok::<u64, String>(metadata.file_size_bytes)
            &&& metadata.audio_codec == audio_codec
            &&& metadata.needs_transcode == has_unplayable_extension(lower_extension(path@))
        },
        lowers_ascii_extension(path@),
{
    if let Err(e) = validate_path(path, exists_on_disk) {
        return Err(e);
    }
    let duration_secs: Seconds = match duration {
        Some(d) => d,
        None => Seconds { bits: ZERO_SECONDS },
    };
    match size {
        Ok(file_size_bytes) => Ok(
            VideoMetadata {
                duration_secs,
                file_size_bytes,
                audio_codec,
                needs_transcode: path_needs_transcode(path),
            },
        ),
        Err(cause) => Err(AppError::metadata_unreadable(cause.as_str())),
    }
}

/// A program is called at the first place where it is, and by its bare name if it is at none. What
/// is said of further places does not matter.
pub proof fn law_first_place_is_taken(os: HostOs, name: Seq<char>, installed: Seq<bool>, k: int)
    ensures
        0 <= k < search_dirs(os).len() && k < installed.len() && installed[k] && (forall|i: int|
            0 <= i < k ==> !installed[i]) ==> located(os, name, installed, 0) == search_dirs(os)[k]
            + seq!['/'] + name,
        (forall|i: int| 0 <= i < search_dirs(os).len() && i < installed.len() ==> !installed[i])
            ==> located(os, name, installed, 0) == name,
{
    reveal_strlit("/");
    assert("/"@ =~= seq!['/']);
    reveal_with_fuel(located, 4);
    assert(search_dirs(os).len() <= 2);
}

/// The places where a program is looked for on each host.
pub proof fn law_places_of_programs()
    ensures
        search_dirs(HostOs::MacOs) == seq!["/opt/homebrew/bin"@, "/usr/local/bin"@],
        search_dirs(HostOs::Linux) == seq!["/usr/local/bin"@, "/usr/bin"@],
        search_dirs(HostOs::Other) == Seq::<Seq<char>>::empty(),
{
}

/// `ffprobe` is asked to print nothing but the codec of the selected stream of the file.
pub proof fn law_codec_call(stream: Seq<char>, path: Seq<char>)
    ensures
        ({
            let args = codec_query(stream, path);
            &&& args.len() == 9
            &&& args[0] == "-v"@ && args[1] == "error"@
            &&& args[2] == "-select_streams"@ && args[3] == stream
            &&& args[4] == "-show_entries"@ && args[5] == "stream=codec_name"@
            &&& args[6] == "-of"@ && args[7] == "default=noprint_wrappers=1:nokey=1"@
            &&& args[8] == path
        }),
{
}

/// `ffprobe` is asked to print nothing but the duration of the file.
pub proof fn law_duration_call(path: Seq<char>)
    ensures
        ({
            let args = duration_query(path);
            &&& args.len() == 7
            &&& args[0] == "-v"@ && args[1] == "error"@
            &&& args[2] == "-show_entries"@ && args[3] == "format=duration"@
            &&& args[4] == "-of"@ && args[5] == "default=noprint_wrappers=1:nokey=1"@
            &&& args[6] == path
        }),
{
}

/// A probe that was not started or failed has no answer. One that succeeded answers with what it
/// printed, without white space around it; a codec is named by an answer that is not empty.
pub proof fn law_answers_of_probes(run: ProbeRun, text: Seq<char>)
    ensures
        probe_answer(None) is None,
        named(None) is None,
        !run.success ==> probe_answer(Some(run)) is None,
        run.success ==> probe_answer(Some(run)) == Some(trimmed(utf8_lossy(run.stdout@))),
        text.len() == 0 ==> named(Some(text)) is None,
        text.len() > 0 ==> named(Some(text)) == Some(text),
{
}

/// A video is described exactly if it is accepted and its size was read; otherwise what is wrong
/// with the video is reported first, and then why the size was not read.
pub proof fn law_metadata_checks(path: PathView, exists_on_disk: bool, size: Result<u64, String>)
    ensures
        ({
            let failure = metadata_failure(path, exists_on_disk, size);
            let video = video_failure(path.text, exists_on_disk, lower_extension(path));
            &&& video is Some ==> failure == video
            &&& video is None && size is Ok ==> failure is None
            &&& video is None ==> (size matches Err(cause) ==> failure == Some(
                Failure::Io("Cannot read file metadata: "@ + cause@),
            ))
        }),
{
}

/// A video needs transcoding exactly if its extension, in lower case, is that of an AVI or Matroska
/// file.
pub proof fn law_what_needs_transcoding(path: PathView)
    ensures
        has_unplayable_extension(lower_extension(path)) <==> (path.extension matches Some(ext) && (
        lowercase(ext) == seq!['a', 'v', 'i'] || lowercase(ext) == seq!['m', 'k', 'v'])),
{
    law_unplayable_extensions(Seq::empty());
    assert(seq!['a', 'v', 'i'].len() == 3 && seq!['m', 'k', 'v'].len() == 3);
    if let Some(ext) = path.extension {
        law_unplayable_extensions(lowercase(ext));
    }
}

/// The durations that stand in for one that is not known are 0 seconds and 1 second, as IEEE 754
/// writes them: a number `2^e` has the biased exponent `e + 1023` and no further bits.
pub proof fn law_stand_in_durations()
    ensures
        ZERO_SECONDS == 0,
        ONE_SECOND == 1023 * 0x10_0000_0000_0000,
{
}

} // verus!
