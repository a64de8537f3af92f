//! Where extracted audio goes: next to the video, under a name made from the name of the video.

use vstd::prelude::*;
use vstd::string::*;

use crate::error::{failure, AppError, Failure};
use crate::paths::{
    body_start, extension, file_name, file_stem, join, last_dot, law_join_is_in_directory,
    lemma_tail_start, parent, path_join, settled, stem_of, tail, unix_path, HostPath, PathView,
};
use crate::rules::is_output_format;
use crate::text::to_chars;

verus! {

/// Whether a character is left out of a suffix: it could lead out of the directory, or end the name.
pub open spec fn is_unsafe(c: char) -> bool {
    c == '/' || c == '\\' || c == '\0'
}

/// A suffix without the characters that are left out.
pub open spec fn cleaned(append: Seq<char>) -> Seq<char>
    decreases append.len(),
{
    if append.len() == 0 {
        Seq::empty()
    } else if is_unsafe(append.last()) {
        cleaned(append.drop_last())
    } else {
        cleaned(append.drop_last()).push(append.last())
    }
}

/// The part of the output name that the user chooses: a hyphen and the suffix, when there is one.
pub open spec fn suffix(append: Seq<char>) -> Seq<char> {
    if cleaned(append).len() == 0 {
        Seq::empty()
    } else {
        seq!['-'] + cleaned(append)
    }
}

/// The name of the output file.
pub open spec fn output_name(stem: Seq<char>, format: Seq<char>, append: Seq<char>) -> Seq<char> {
    stem + suffix(append) + "-audio."@ + format
}

/// What stops an output path from being made: the path has no directory or no file name.
pub open spec fn output_failure(path: PathView) -> Option<Failure> {
    if path.parent is None {
        Some(Failure::Io("Cannot determine parent directory"@))
    } else if path.file_stem is None {
        Some(Failure::Io("Cannot determine filename"@))
    } else {
        None
    }
}

/// Where extracted audio goes: a name that the host joins to a directory.
#[derive(Debug)]
pub struct OutputPath {
    pub dir: String,
    pub name: String,
}

/// Where extracted audio goes, as sequences of characters.
#[verifier::ext_equal]
pub struct OutputView {
    pub dir: Seq<char>,
    pub name: Seq<char>,
}

impl View for OutputPath {
    type V = OutputView;

    open spec fn view(&self) -> OutputView {
        OutputView { dir: self.dir@, name: self.name@ }
    }
}

impl OutputPath {
    /// The path of the output on a host that separates paths by `/`.
    pub fn to_unix_path(&self) -> (path: String)
        ensures
            path@ == join(self@.dir, self@.name),
    {
        path_join(self.dir.as_str(), self.name.as_str())
    }
}

/// Where the audio of a video goes: to the directory of the video, under a name made from its own.
pub open spec fn output_place(path: PathView, format: Seq<char>, append: Seq<char>) -> OutputView {
    OutputView { dir: path.parent->0, name: output_name(path.file_stem->0, format, append) }
}

/// The path of the output for the video at `path`, on a host that separates paths by `/`.
pub open spec fn output_path(path: Seq<char>, format: Seq<char>, append: Seq<char>) -> Seq<char> {
    let place = output_place(unix_path(path), format, append);
    join(place.dir, place.name)
}

/// Removes the characters that a suffix may not have.
fn clean_suffix(append: &str) -> (clean: String)
    ensures
        clean@ == cleaned(append@),
{
    let chars: Vec<char> = to_chars(append);
    let mut clean: String = String::new();
    let n: usize = chars.len();
    for i in 0..n
        invariant
            n == chars@.len(),
            chars@ == append@,
            clean@ == cleaned(append@.take(i as int)),
    {
        let c: char = chars[i];
        assert(append@.take(i + 1).drop_last() =~= append@.take(i as int));
        if !(c == '/' || c == '\\' || c == '\0') {
            clean.push(c);
        }
    }
    assert(append@.take(n as int) =~= append@);
    clean
}

/// Makes the name of the output file.
pub fn output_file_name(stem: &str, format: &str, append: &str) -> (name: String)
    ensures
        name@ == output_name(stem@, format@, append@),
{
    let clean: String = clean_suffix(append);
    let mut name: String = stem.to_owned();
    if !clean.as_str().is_empty() {
        name.push('-');
        name.append(clean.as_str());
    }
    assert(name@ =~= stem@ + suffix(append@));
    name.append("-audio.");
    name.append(format);
    name
}

/// Decides where the audio of a video goes: to the directory of the video, named after it.
pub fn build_output_path(path: &HostPath, format: &str, append: &str) -> (result: Result<
    OutputPath,
    AppError,
>)
    ensures
        failure(result) == output_failure(path@),
        result matches Ok(out) ==> out@ == output_place(path@, format@, append@),
{
    match (&path.parent, &path.file_stem) {
        (None, _) => Err(AppError::Io("Cannot determine parent directory".to_owned())),
        (Some(_), None) => Err(AppError::Io("Cannot determine filename".to_owned())),
        (Some(dir), Some(stem)) => Ok(
            OutputPath {
                dir: dir.clone(),
                name: output_file_name(stem.as_str(), format, append),
            },
        ),
    }
}

/// A cleaned suffix holds no separator and no NUL.
pub proof fn law_suffix_is_safe(append: Seq<char>)
    ensures
        forall|i: int| 0 <= i < cleaned(append).len() ==> !is_unsafe(#[trigger] cleaned(append)[i]),
    decreases append.len(),
{
    if append.len() > 0 {
        law_suffix_is_safe(append.drop_last());
        let before = cleaned(append.drop_last());
        assert forall|i: int| 0 <= i < cleaned(append).len() implies !is_unsafe(
            #[trigger] cleaned(append)[i],
        ) by {
            if i < before.len() {
                assert(cleaned(append)[i] == before[i]);
            }
        }
    }
}

/// A suffix with nothing to leave out is kept as it is.
pub proof fn law_safe_suffix_is_kept(append: Seq<char>)
    requires
        forall|i: int| 0 <= i < append.len() ==> !is_unsafe(#[trigger] append[i]),
    ensures
        cleaned(append) == append,
    decreases append.len(),
{
    if append.len() > 0 {
        law_safe_suffix_is_kept(append.drop_last());
        assert(append.drop_last().push(append.last()) =~= append);
    } else {
        assert(cleaned(append) =~= append);
    }
}

/// The stem of a path holds no separator.
proof fn lemma_stem_has_no_separator(path: Seq<char>)
    requires
        file_stem(path) is Some,
    ensures
        !file_stem(path)->0.contains('/'),
{
    let q = settled(path);
    lemma_tail_start(q, body_start(q));
    lemma_last_dot(tail(q));
    let stem = stem_of(tail(q));
    assert forall|i: int| 0 <= i < stem.len() implies stem[i] != '/' by {
        assert(stem[i] == tail(q)[i]);
    }
}

/// The last dot of a name is inside it, and not its first character.
proof fn lemma_last_dot(name: Seq<char>)
    ensures
        last_dot(name) matches Some(d) ==> 0 < d < name.len(),
    decreases name.len(),
{
    if name.len() > 1 && name.last() != '.' {
        lemma_last_dot(name.drop_last());
    }
}

/// There is a dot where the last dot is.
proof fn lemma_dot_is_there(name: Seq<char>)
    ensures
        last_dot(name) matches Some(d) ==> name[d] == '.',
    decreases name.len(),
{
    if name.len() > 1 && name.last() != '.' {
        lemma_dot_is_there(name.drop_last());
        lemma_last_dot(name.drop_last());
    }
}

/// The last dot of a name is in front of an ending that has none.
proof fn lemma_last_dot_before(front: Seq<char>, end: Seq<char>)
    requires
        front.len() > 1,
        front.last() == '.',
        !end.contains('.'),
    ensures
        last_dot(front + end) == Some(front.len() - 1),
    decreases end.len(),
{
    if end.len() == 0 {
        assert(front + end =~= front);
    } else {
        assert forall|c: char| end.drop_last().contains(c) implies end.contains(c) by {
            let i = choose|i: int| 0 <= i < end.drop_last().len() && end.drop_last()[i] == c;
            assert(end[i] == c);
        }
        lemma_last_dot_before(front, end.drop_last());
        assert((front + end).drop_last() =~= front + end.drop_last());
        assert(end.contains(end.last()));
    }
}

/// An output format is three characters, none of them a separator or a dot.
proof fn lemma_output_format(format: Seq<char>)
    requires
        is_output_format(format),
    ensures
        format.len() == 3,
        !format.contains('/'),
        !format.contains('.'),
{
    reveal_strlit("aac");
    reveal_strlit("mp3");
    reveal_strlit("ogg");
}

/// Whatever suffix the user chooses, the output of an accepted format lands in the directory of
/// the video, under the name made for it, with the format as its extension.
pub proof fn law_output_is_beside_video(path: Seq<char>, format: Seq<char>, append: Seq<char>)
    requires
        output_failure(unix_path(path)) is None,
        is_output_format(format),
    ensures
        parent(output_path(path, format, append)) == parent(path),
        file_name(output_path(path, format, append)) == Some(
            output_name(file_stem(path)->0, format, append),
        ),
        extension(output_path(path, format, append)) == Some(format),
{
    let stem = file_stem(path)->0;
    let name = output_name(stem, format, append);
    let front = stem + suffix(append) + "-audio."@;
    reveal_strlit("-audio.");
    lemma_stem_has_no_separator(path);
    law_suffix_is_safe(append);
    lemma_output_format(format);
    assert forall|i: int| 0 <= i < name.len() implies name[i] != '/' by {
        let a = stem.len() as int;
        let b = a + suffix(append).len();
        if i < a {
            assert(stem.contains(stem[i]));
        } else if i < b {
            assert(name[i] == suffix(append)[i - a]);
            if cleaned(append).len() > 0 && i > a {
                assert(suffix(append)[i - a] == cleaned(append)[i - a - 1]);
            }
        } else if i < b + 7 {
            assert(name[i] == "-audio."@[i - b]);
        } else {
            assert(name[i] == format[i - b - 7]);
            assert(format.contains(format[i - b - 7]));
        }
    }
    assert(name.len() >= 10);
    law_join_is_in_directory(path, name);
    assert(front.last() == '.');
    lemma_last_dot_before(front, format);
    assert(name =~= front + format);
    assert(name.skip(front.len() as int) =~= format);
}

/// Right after the stem of the video the name of the output has a hyphen, where the name of the
/// video has a dot or ends: whatever the host, the two names differ.
pub proof fn law_output_has_its_own_name(
    stem: Seq<char>,
    ext: Seq<char>,
    format: Seq<char>,
    append: Seq<char>,
)
    ensures
        output_name(stem, format, append) != stem,
        output_name(stem, format, append) != stem.push('.') + ext,
{
    reveal_strlit("-audio.");
    let name = output_name(stem, format, append);
    let at = stem.len() as int;
    assert(name.len() > at && name[at] == '-');
    assert((stem.push('.') + ext)[at] == '.');
}

/// Extraction does not write over the video.
pub proof fn law_output_is_not_the_video(path: Seq<char>, format: Seq<char>, append: Seq<char>)
    requires
        output_failure(unix_path(path)) is None,
        is_output_format(format),
    ensures
        output_path(path, format, append) != path,
{
    let name = file_name(path)->0;
    law_output_is_beside_video(path, format, append);
    lemma_last_dot(name);
    match last_dot(name) {
        Some(d) => {
            let ext = name.skip(d + 1);
            law_output_has_its_own_name(stem_of(name), ext, format, append);
            assert(name[d] == '.') by {
                lemma_dot_is_there(name);
            }
            assert(name =~= stem_of(name).push('.') + ext);
        },
        None => {
            law_output_has_its_own_name(name, Seq::empty(), format, append);
        },
    }
}

/// A suffix keeps its characters and their order, but for slashes, backslashes and NULs.
pub proof fn law_suffix_is_filtered(append: Seq<char>)
    ensures
        cleaned(append) == append.filter(|c: char| c != '/' && c != '\\' && c != '\0'),
    decreases append.len(),
{
    reveal(Seq::filter);
    if append.len() > 0 {
        law_suffix_is_filtered(append.drop_last());
    } else {
        assert(cleaned(append) =~= append.filter(|c: char| c != '/' && c != '\\' && c != '\0'));
    }
}

/// The name of the output is the stem of the video, a hyphen and the suffix where one is left, the
/// word `audio` behind another hyphen, and the format as its extension.
pub proof fn law_output_name_has_its_parts(stem: Seq<char>, format: Seq<char>, append: Seq<char>)
    ensures
        ({
            let clean = append.filter(|c: char| c != '/' && c != '\\' && c != '\0');
            let tail = seq!['-', 'a', 'u', 'd', 'i', 'o', '.'] + format;
            &&& clean.len() == 0 ==> output_name(stem, format, append) == stem + tail
            &&& clean.len() > 0 ==> output_name(stem, format, append) == stem.push('-') + clean + tail
        }),
{
    law_suffix_is_filtered(append);
    reveal_strlit("-audio.");
    let clean = append.filter(|c: char| c != '/' && c != '\\' && c != '\0');
    let tail = seq!['-', 'a', 'u', 'd', 'i', 'o', '.'] + format;
    assert("-audio."@ =~= seq!['-', 'a', 'u', 'd', 'i', 'o', '.']);
    if clean.len() == 0 {
        assert(output_name(stem, format, append) =~= stem + tail);
    } else {
        assert(output_name(stem, format, append) =~= stem.push('-') + clean + tail);
    }
}

/// Every path with a directory and a stem has an output, in that directory; a path without a
/// directory is refused for that, and only then one without a stem.
pub proof fn law_output_needs_directory_and_stem(path: PathView, format: Seq<char>, append: Seq<char>)
    ensures
        path.parent is None ==> output_failure(path) == Some(
            Failure::Io("Cannot determine parent directory"@),
        ),
        path.parent is Some && path.file_stem is None ==> output_failure(path) == Some(
            Failure::Io("Cannot determine filename"@),
        ),
        path.parent is Some && path.file_stem is Some ==> {
            &&& output_failure(path) is None
            &&& output_place(path, format, append).dir == path.parent->0
            &&& output_place(path, format, append).name == output_name(
                path.file_stem->0,
                format,
                append,
            )
        },
{
}

/// Where an output goes is told by the texts of its directory and its name.
pub proof fn law_output_is_its_directory_and_name(output: OutputPath)
    ensures
        output@.dir == output.dir@,
        output@.name == output.name@,
{
}

} // verus!
