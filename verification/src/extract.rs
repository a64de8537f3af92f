//! Extracting audio: what is checked first, how FFmpeg is called, and what happens while it runs.

use vstd::prelude::*;
use vstd::string::*;

use crate::args::{add_words, words};
use crate::error::{failure, joined, AppError, Failure};
use crate::number::{decimal, decimal_string, unsigned_value};
use crate::output::{build_output_path, output_failure, output_place, OutputPath};
use crate::paths::{HostPath, PathView};
use crate::rules::{
    codec_for_format, format_failure, hms_to_seconds, is_output_format, law_time_is_read,
    lower_extension, lowers_ascii_extension, output_codec, seconds_of, time_failure, validate_format, validate_path,
    validate_time, video_failure,
};
use crate::text::{after_prefix, law_prefix_is_taken_off, strip_prefix};

verus! {

/// The first failure of two checks that are made one after the other.
pub open spec fn first_failure(a: Option<Failure>, b: Option<Failure>) -> Option<Failure> {
    if a is Some {
        a
    } else {
        b
    }
}

/// What stops the whole audio of a video from being extracted.
pub open spec fn whole_failure(
    path: PathView,
    exists_on_disk: bool,
    ext: Option<Seq<char>>,
    format: Seq<char>,
) -> Option<Failure> {
    first_failure(
        video_failure(path.text, exists_on_disk, ext),
        first_failure(format_failure(format), output_failure(path)),
    )
}

/// What stops a range from being extracted, before the times are compared.
pub open spec fn range_failure(
    path: PathView,
    exists_on_disk: bool,
    ext: Option<Seq<char>>,
    start: Seq<char>,
    end: Seq<char>,
    format: Seq<char>,
) -> Option<Failure> {
    first_failure(
        video_failure(path.text, exists_on_disk, ext),
        first_failure(
            format_failure(format),
            first_failure(
                time_failure(start),
                first_failure(time_failure(end), output_failure(path)),
            ),
        ),
    )
}

/// Checks a request for the whole audio of a video and returns where the output goes.
pub fn prepare_whole_audio(
    path: &HostPath,
    exists_on_disk: bool,
    format: &str,
    append: &str,
) -> (result: Result<OutputPath, AppError>)
    ensures
        failure(result) == whole_failure(path@, exists_on_disk, lower_extension(path@), format@),
        result matches Ok(out) ==> out@ == output_place(path@, format@, append@),
        lowers_ascii_extension(path@),
{
    if let Err(e) = validate_path(path, exists_on_disk) {
        return Err(e);
    }
    if let Err(e) = validate_format(format) {
        return Err(e);
    }
    build_output_path(path, format, append)
}

/// Checks a request for a range of the audio of a video and returns where the output goes.
/// The two times are compared later, by `audio_range_command`.
pub fn prepare_audio_range(
    path: &HostPath,
    exists_on_disk: bool,
    start: &str,
    end: &str,
    format: &str,
    append: &str,
) -> (result: Result<OutputPath, AppError>)
    ensures
        failure(result) == range_failure(
            path@,
            exists_on_disk,
            lower_extension(path@),
            start@,
            end@,
            format@,
        ),
        result matches Ok(out) ==> out@ == output_place(path@, format@, append@),
        lowers_ascii_extension(path@),
{
    if let Err(e) = validate_path(path, exists_on_disk) {
        return Err(e);
    }
    if let Err(e) = validate_format(format) {
        return Err(e);
    }
    if let Err(e) = validate_time(start) {
        return Err(e);
    }
    if let Err(e) = validate_time(end) {
        return Err(e);
    }
    build_output_path(path, format, append)
}

/// The FFmpeg arguments that extract the whole audio.
pub open spec fn whole_query(path: Seq<char>, codec: Seq<char>, output: Seq<char>) -> Seq<Seq<char>> {
    seq!["-y"@, "-i"@, path, "-vn"@, "-c:a"@, codec, "-progress"@, "pipe:1"@, output]
}

/// A number of seconds with three decimals.
pub open spec fn seconds_text(secs: nat) -> Seq<char> {
    decimal(secs) + ".000"@
}

/// The FFmpeg arguments that extract a range. The start comes before the input, for a fast seek,
/// and the length of the range is given, since an end would be counted from the start.
pub open spec fn range_query(
    path: Seq<char>,
    start: Seq<char>,
    secs: nat,
    codec: Seq<char>,
    output: Seq<char>,
) -> Seq<Seq<char>> {
    seq![
        "-y"@,
        "-ss"@,
        start,
        "-i"@,
        path,
        "-t"@,
        seconds_text(secs),
        "-vn"@,
        "-c:a"@,
        codec,
        "-progress"@,
        "pipe:1"@,
        output,
    ]
}

/// The text of an optional string.
pub open spec fn text_of(s: Option<&str>) -> Option<Seq<char>> {
    match s {
        Some(t) => Some(t@),
        None => None,
    }
}

/// The user's wish to cancel an extraction.
#[derive(Debug)]
pub struct CancelFlag {
    pub requested: bool,
}

impl CancelFlag {
    /// Sets or clears the wish.
    pub fn store(&mut self, requested: bool)
        ensures
            final(self).requested == requested,
    {
        self.requested = requested;
    }

    /// Whether the extraction is to be cancelled.
    pub fn load(&self) -> (requested: bool)
        ensures
            requested == self.requested,
    {
        self.requested
    }
}

/// Makes the FFmpeg arguments that extract the whole audio to `output`. An earlier wish to cancel
/// is forgotten, so that it does not stop the new extraction.
pub fn whole_audio_args(
    cancel: &mut CancelFlag,
    path: &str,
    format: &str,
    source_codec: Option<&str>,
    output: &str,
) -> (args: Vec<String>)
    requires
        is_output_format(format@),
    ensures
        !final(cancel).requested,
        words(args@) == whole_query(path@, output_codec(format@, text_of(source_codec)), output@),
{
    let codec: &'static str = codec_for_format(format, source_codec);
    cancel.store(false);
    let mut args: Vec<String> = Vec::new();
    let list: [&str; 9] = ["-y", "-i", path, "-vn", "-c:a", codec, "-progress", "pipe:1", output];
    add_words(&mut args, list.as_slice());
    assert(words(args@) =~= whole_query(
        path@,
        output_codec(format@, text_of(source_codec)),
        output@,
    ));
    args
}

/// A call of FFmpeg that extracts a range.
#[derive(Debug)]
pub struct RangeCommand {
    pub args: Vec<String>,
    pub duration_secs: u64,
}

/// What is wrong with two times that bound a range.
pub open spec fn bounds_failure(start: Seq<char>, end: Seq<char>) -> Option<Failure> {
    first_failure(
        time_failure(end),
        first_failure(
            time_failure(start),
            if seconds_of(end) <= seconds_of(start) {
                Some(Failure::StartAfterEnd)
            } else {
                None
            },
        ),
    )
}

/// Makes the call of FFmpeg that extracts the range from `start` to `end` to `output`. If there is
/// one, an earlier wish to cancel is forgotten, so that it does not stop the new extraction.
pub fn audio_range_command(
    cancel: &mut CancelFlag,
    path: &str,
    start: &str,
    end: &str,
    format: &str,
    source_codec: Option<&str>,
    output: &str,
) -> (result: Result<RangeCommand, AppError>)
    requires
        is_output_format(format@),
    ensures
        failure(result) == bounds_failure(start@, end@),
        final(cancel).requested == (old(cancel).requested && result is Err),
        result matches Ok(command) ==> {
            &&& command.duration_secs == seconds_of(end@) - seconds_of(start@)
            &&& words(command.args@) == range_query(
                path@,
                start@,
                command.duration_secs as nat,
                output_codec(format@, text_of(source_codec)),
                output@,
            )
        },
{
    let codec: &'static str = codec_for_format(format, source_codec);
    let to: u64 = match hms_to_seconds(end) {
        Ok(secs) => secs,
        Err(e) => return Err(e),
    };
    let from: u64 = match hms_to_seconds(start) {
        Ok(secs) => secs,
        Err(e) => return Err(e),
    };
    if to <= from {
        return Err(AppError::StartAfterEnd);
    }
    cancel.store(false);
    let duration_secs: u64 = to - from;
    let whole: String = decimal_string(duration_secs);
    let duration: String = joined(whole.as_str(), ".000");
    let mut args: Vec<String> = Vec::new();
    let list: [&str; 13] = [
        "-y",
        "-ss",
        start,
        "-i",
        path,
        "-t",
        duration.as_str(),
        "-vn",
        "-c:a",
        codec,
        "-progress",
        "pipe:1",
        output,
    ];
    add_words(&mut args, list.as_slice());
    assert(words(args@) =~= range_query(
        path@,
        start@,
        duration_secs as nat,
        output_codec(format@, text_of(source_codec)),
        output@,
    ));
    Ok(RangeCommand { args, duration_secs })
}

/// How far a running extraction has come.
#[derive(Debug, Clone, Copy, PartialEq, Eq, Structural)]
pub enum Stage {
    /// FFmpeg prints its progress.
    Reading,
    /// FFmpeg is being killed.
    Killing,
    /// The partial output is being removed.
    Removing,
    /// FFmpeg is about to exit.
    Waiting,
    /// FFmpeg failed, and what it printed on standard error is being read.
    Draining,
    /// The extraction is over.
    Done,
}

/// What happened to a running extraction.
#[derive(Debug)]
pub enum Event {
    /// A line of progress was read; the user may have asked to cancel by then.
    Line { text: String, cancel_requested: bool },
    /// There are no more lines of progress.
    EndOfProgress,
    /// FFmpeg was killed.
    Killed,
    /// The output file was removed.
    Removed,
    /// FFmpeg exited.
    Exited { success: bool },
    /// Waiting for FFmpeg failed.
    WaitFailed { cause: String },
    /// Standard error was read to its end.
    Stderr { text: String },
}

/// What is to be done next.
#[derive(Debug)]
pub enum Action {
    /// Read the next line of progress.
    ReadLine,
    /// Report progress from the time that FFmpeg has reached, in microseconds, then read on.
    Report { time_us: String },
    /// Kill FFmpeg.
    Kill,
    /// Remove the output file.
    RemoveOutput,
    /// Wait for FFmpeg to exit.
    Wait,
    /// Read standard error to its end.
    ReadStderr,
    /// Report that everything is done, and end well.
    Succeed,
    /// End with an error.
    Fail { error: AppError },
}

/// An event with its text as a sequence of characters.
pub enum EventView {
    Line { text: Seq<char>, cancel_requested: bool },
    EndOfProgress,
    Killed,
    Removed,
    Exited { success: bool },
    WaitFailed { cause: Seq<char> },
    Stderr { text: Seq<char> },
}

impl View for Event {
    type V = EventView;

    open spec fn view(&self) -> EventView {
        match self {
            Event::Line { text, cancel_requested } => EventView::Line {
                text: text@,
                cancel_requested: *cancel_requested,
            },
            Event::EndOfProgress => EventView::EndOfProgress,
            Event::Killed => EventView::Killed,
            Event::Removed => EventView::Removed,
            Event::Exited { success } => EventView::Exited { success: *success },
            Event::WaitFailed { cause } => EventView::WaitFailed { cause: cause@ },
            Event::Stderr { text } => EventView::Stderr { text: text@ },
        }
    }
}

/// An action with its text as a sequence of characters.
pub enum ActionView {
    ReadLine,
    Report { time_us: Seq<char> },
    Kill,
    RemoveOutput,
    Wait,
    ReadStderr,
    Succeed,
    Fail { error: Failure },
}

impl View for Action {
    type V = ActionView;

    open spec fn view(&self) -> ActionView {
        match self {
            Action::ReadLine => ActionView::ReadLine,
            Action::Report { time_us } => ActionView::Report { time_us: time_us@ },
            Action::Kill => ActionView::Kill,
            Action::RemoveOutput => ActionView::RemoveOutput,
            Action::Wait => ActionView::Wait,
            Action::ReadStderr => ActionView::ReadStderr,
            Action::Succeed => ActionView::Succeed,
            Action::Fail { error } => ActionView::Fail { error: error@ },
        }
    }
}

/// Whether an event can happen at a stage.
pub open spec fn awaits(stage: Stage, event: EventView) -> bool {
    match stage {
        Stage::Reading => event is Line || event is EndOfProgress,
        Stage::Killing => event is Killed,
        Stage::Removing => event is Removed,
        Stage::Waiting => event is Exited || event is WaitFailed,
        Stage::Draining => event is Stderr,
        Stage::Done => false,
    }
}

/// The stage after an event that can happen.
pub open spec fn next_stage(event: EventView) -> Stage {
    match event {
        EventView::Line { text, cancel_requested } => if cancel_requested {
            Stage::Killing
        } else {
            Stage::Reading
        },
        EventView::EndOfProgress => Stage::Waiting,
        EventView::Killed => Stage::Removing,
        EventView::Removed => Stage::Done,
        EventView::Exited { success } => if success {
            Stage::Done
        } else {
            Stage::Draining
        },
        EventView::WaitFailed { cause } => Stage::Done,
        EventView::Stderr { text } => Stage::Done,
    }
}

/// What is done after an event that can happen.
pub open spec fn next_action(event: EventView) -> ActionView {
    match event {
        EventView::Line { text, cancel_requested } => if cancel_requested {
            ActionView::Kill
        } else {
            match after_prefix(text, "out_time_us="@) {
                Some(time_us) => ActionView::Report { time_us },
                None => ActionView::ReadLine,
            }
        },
        EventView::EndOfProgress => ActionView::Wait,
        EventView::Killed => ActionView::RemoveOutput,
        EventView::Removed => ActionView::Fail { error: Failure::Cancelled },
        EventView::Exited { success } => if success {
            ActionView::Succeed
        } else {
            ActionView::ReadStderr
        },
        EventView::WaitFailed { cause } => ActionView::Fail {
            error: Failure::FfmpegFailed(cause),
        },
        EventView::Stderr { text } => ActionView::Fail { error: Failure::FfmpegFailed(text) },
    }
}

/// Decides what a running extraction does after an event.
pub fn advance(stage: Stage, event: Event) -> (next: (Stage, Action))
    requires
        awaits(stage, event@),
    ensures
        next.0 == next_stage(event@),
        next.1@ == next_action(event@),
{
    match event {
        Event::Line { text, cancel_requested } => {
            if cancel_requested {
                (Stage::Killing, Action::Kill)
            } else {
                match strip_prefix(text.as_str(), "out_time_us=") {
                    Some(time_us) => (Stage::Reading, Action::Report { time_us }),
                    None => (Stage::Reading, Action::ReadLine),
                }
            }
        },
        Event::EndOfProgress => (Stage::Waiting, Action::Wait),
        Event::Killed => (Stage::Removing, Action::RemoveOutput),
        Event::Removed => (Stage::Done, Action::Fail { error: AppError::Cancelled }),
        Event::Exited { success } => {
            if success {
                (Stage::Done, Action::Succeed)
            } else {
                (Stage::Draining, Action::ReadStderr)
            }
        },
        Event::WaitFailed { cause } => (
            Stage::Done,
            Action::Fail { error: AppError::FfmpegFailed(cause) },
        ),
        Event::Stderr { text } => (Stage::Done, Action::Fail { error: AppError::FfmpegFailed(text) }),
    }
}

/// The stage after a run of events.
pub open spec fn stage_after(events: Seq<EventView>) -> Stage {
    if events.len() == 0 {
        Stage::Reading
    } else {
        next_stage(events.last())
    }
}

/// Whether each event of a run can happen when it does.
pub open spec fn is_run(events: Seq<EventView>) -> bool
    decreases events.len(),
{
    events.len() == 0 || (is_run(events.drop_last()) && awaits(
        stage_after(events.drop_last()),
        events.last(),
    ))
}

/// Whether the user had asked to cancel when some line of the run was read.
pub open spec fn is_cancelled(events: Seq<EventView>) -> bool
    decreases events.len(),
{
    events.len() > 0 && (is_cancelled(events.drop_last()) || (events.last() matches EventView::Line {
        cancel_requested,
        ..
    } && cancel_requested))
}

/// The stage tells whether the run was cancelled.
proof fn lemma_cancelled_stages(events: Seq<EventView>)
    requires
        is_run(events),
    ensures
        match stage_after(events) {
            Stage::Killing | Stage::Removing => is_cancelled(events),
            Stage::Reading | Stage::Waiting | Stage::Draining => !is_cancelled(events),
            Stage::Done => is_cancelled(events) == (events.last() is Removed),
        },
    decreases events.len(),
{
    if events.len() > 0 {
        lemma_cancelled_stages(events.drop_last());
    }
}

/// An extraction that was cancelled ends with that error, right after its output was removed.
pub proof fn law_cancelled_run_is_cleaned_up(events: Seq<EventView>)
    requires
        is_run(events),
        stage_after(events) is Done,
        is_cancelled(events),
    ensures
        next_action(events.last()) == (ActionView::Fail { error: Failure::Cancelled }),
        events.len() >= 2,
        next_action(events[events.len() - 2]) == ActionView::RemoveOutput,
{
    lemma_cancelled_stages(events);
}

/// An extraction ends well only if it was not cancelled and FFmpeg exited with success.
pub proof fn law_success_is_earned(events: Seq<EventView>)
    requires
        is_run(events),
        stage_after(events) is Done,
        next_action(events.last()) == ActionView::Succeed,
    ensures
        !is_cancelled(events),
        events.last() == (EventView::Exited { success: true }),
{
    lemma_cancelled_stages(events);
}

/// An extraction that was not cancelled keeps its output, whatever FFmpeg did.
pub proof fn law_output_is_kept_unless_cancelled(events: Seq<EventView>)
    requires
        is_run(events),
        !is_cancelled(events),
    ensures
        forall|i: int|
            0 <= i < events.len() ==> next_action(#[trigger] events[i])
                != ActionView::RemoveOutput,
    decreases events.len(),
{
    if events.len() > 0 {
        let before = events.drop_last();
        law_output_is_kept_unless_cancelled(before);
        lemma_cancelled_stages(before);
        assert forall|i: int| 0 <= i < events.len() implies next_action(#[trigger] events[i])
            != ActionView::RemoveOutput by {
            if i < before.len() {
                assert(events[i] == before[i]);
            }
        }
    }
}

/// A range is accepted exactly if it begins before it ends: of two valid times, given by their
/// hours, minutes and seconds, in whatever hour they are.
pub proof fn law_range_begins_before_it_ends(
    h1: Seq<char>,
    m1: Seq<char>,
    s1: Seq<char>,
    h2: Seq<char>,
    m2: Seq<char>,
    s2: Seq<char>,
)
    requires
        unsigned_value(h1) matches Some(v) && v <= u32::MAX,
        unsigned_value(m1) matches Some(v) && v < 60,
        unsigned_value(s1) matches Some(v) && v < 60,
        unsigned_value(h2) matches Some(v) && v <= u32::MAX,
        unsigned_value(m2) matches Some(v) && v < 60,
        unsigned_value(s2) matches Some(v) && v < 60,
    ensures
        ({
            let start = h1.push(':') + m1.push(':') + s1;
            let end = h2.push(':') + m2.push(':') + s2;
            let from = 3600 * unsigned_value(h1)->0 + 60 * unsigned_value(m1)->0 + unsigned_value(s1)->0;
            let to = 3600 * unsigned_value(h2)->0 + 60 * unsigned_value(m2)->0 + unsigned_value(s2)->0;
            &&& from < to ==> bounds_failure(start, end) is None
            &&& from >= to ==> bounds_failure(start, end) == Some(Failure::StartAfterEnd)
            &&& seconds_of(end) - seconds_of(start) == to - from
        }),
{
    law_time_is_read(h1, m1, s1);
    law_time_is_read(h2, m2, s2);
}

/// If a bound is no valid time, what is wrong with it is reported, with the end first; a range with
/// valid bounds is refused only if it does not begin before it ends.
pub proof fn law_bounds_are_valid_times(start: Seq<char>, end: Seq<char>)
    ensures
        time_failure(end) is Some ==> bounds_failure(start, end) == time_failure(end),
        time_failure(end) is None && time_failure(start) is Some ==> bounds_failure(start, end)
            == time_failure(start),
        bounds_failure(start, end) is None <==> time_failure(start) is None && time_failure(end) is None
            && seconds_of(start) < seconds_of(end),
{
}

/// The whole audio can be extracted exactly if the video, the format and the path are in order, and
/// of what is wrong the first is reported in that order.
pub proof fn law_whole_audio_checks(
    path: PathView,
    exists_on_disk: bool,
    ext: Option<Seq<char>>,
    format: Seq<char>,
)
    ensures
        ({
            let failure = whole_failure(path, exists_on_disk, ext, format);
            let video = video_failure(path.text, exists_on_disk, ext);
            &&& video is Some ==> failure == video
            &&& video is None && format_failure(format) is Some ==> failure == format_failure(format)
            &&& video is None && format_failure(format) is None ==> failure == output_failure(path)
        }),
{
}

/// A range can be extracted, as far as its bounds are not compared, exactly if the video, the
/// format, the start, the end and the path are in order, and of what is wrong the first is reported
/// in that order.
pub proof fn law_audio_range_checks(
    path: PathView,
    exists_on_disk: bool,
    ext: Option<Seq<char>>,
    start: Seq<char>,
    end: Seq<char>,
    format: Seq<char>,
)
    ensures
        ({
            let failure = range_failure(path, exists_on_disk, ext, start, end, format);
            let video = video_failure(path.text, exists_on_disk, ext);
            let times_ok = time_failure(start) is None && time_failure(end) is None;
            &&& video is Some ==> failure == video
            &&& video is None && format_failure(format) is Some ==> failure == format_failure(format)
            &&& video is None && format_failure(format) is None ==> {
                &&& time_failure(start) is Some ==> failure == time_failure(start)
                &&& time_failure(start) is None && time_failure(end) is Some ==> failure
                    == time_failure(end)
                &&& times_ok ==> failure == output_failure(path)
            }
        }),
{
}

/// FFmpeg reads the video, drops its pictures, writes audio of the chosen codec over whatever is at
/// the output, and prints its progress.
pub proof fn law_whole_audio_call(path: Seq<char>, codec: Seq<char>, output: Seq<char>)
    ensures
        ({
            let args = whole_query(path, codec, output);
            &&& args.len() == 9
            &&& args[0] == "-y"@
            &&& args[1] == "-i"@ && args[2] == path
            &&& args[3] == "-vn"@
            &&& args[4] == "-c:a"@ && args[5] == codec
            &&& args[6] == "-progress"@ && args[7] == "pipe:1"@
            &&& args[8] == output
        }),
{
}

/// A range is extracted by the same call, with the start before the input and the length of the
/// range, in seconds with three decimals, behind it.
pub proof fn law_audio_range_call(
    path: Seq<char>,
    start: Seq<char>,
    secs: nat,
    codec: Seq<char>,
    output: Seq<char>,
)
    ensures
        ({
            let args = range_query(path, start, secs, codec, output);
            let whole = whole_query(path, codec, output);
            &&& args.len() == 13
            &&& args.take(1) == whole.take(1)
            &&& args[1] == "-ss"@ && args[2] == start
            &&& args.subrange(3, 5) == whole.subrange(1, 3)
            &&& args[5] == "-t"@ && args[6] == decimal(secs) + seq!['.', '0', '0', '0']
            &&& args.skip(7) == whole.skip(3)
        }),
{
    let args = range_query(path, start, secs, codec, output);
    let whole = whole_query(path, codec, output);
    reveal_strlit(".000");
    assert(".000"@ =~= seq!['.', '0', '0', '0']);
    assert(args.take(1) =~= whole.take(1));
    assert(args.subrange(3, 5) =~= whole.subrange(1, 3));
    assert(args.skip(7) =~= whole.skip(3));
}

/// Whatever line is read, the wish to cancel kills FFmpeg. Without it a line that gives a time is
/// reported with that time, and any other line is passed over; either way the next one is read.
pub proof fn law_lines_of_progress(text: Seq<char>, time_us: Seq<char>)
    ensures
        next_stage(EventView::Line { text, cancel_requested: true }) == Stage::Killing,
        next_action(EventView::Line { text, cancel_requested: true }) == ActionView::Kill,
        next_stage(EventView::Line { text, cancel_requested: false }) == Stage::Reading,
        next_action(
            EventView::Line { text: "out_time_us="@ + time_us, cancel_requested: false },
        ) == (ActionView::Report { time_us }),
        next_action(EventView::Line { text, cancel_requested: false }) matches ActionView::Report {
            time_us: t,
        } ==> text == "out_time_us="@ + t,
        next_action(EventView::Line { text, cancel_requested: false }) is Report || next_action(
            EventView::Line { text, cancel_requested: false },
        ) is ReadLine,
{
    law_prefix_is_taken_off("out_time_us="@, time_us, text);
}

/// When FFmpeg prints no more it is waited for, and its exit decides: success ends the extraction
/// well, and failure ends it with what FFmpeg printed as an error, or with why waiting failed.
pub proof fn law_end_of_an_extraction(text: Seq<char>)
    ensures
        next_stage(EventView::EndOfProgress) == Stage::Waiting,
        next_action(EventView::EndOfProgress) == ActionView::Wait,
        next_stage(EventView::Exited { success: true }) == Stage::Done,
        next_action(EventView::Exited { success: true }) == ActionView::Succeed,
        next_stage(EventView::Exited { success: false }) == Stage::Draining,
        next_action(EventView::Exited { success: false }) == ActionView::ReadStderr,
        next_stage(EventView::Stderr { text }) == Stage::Done,
        next_action(EventView::Stderr { text }) == (ActionView::Fail {
            error: Failure::FfmpegFailed(text),
        }),
        next_stage(EventView::WaitFailed { cause: text }) == Stage::Done,
        next_action(EventView::WaitFailed { cause: text }) == (ActionView::Fail {
            error: Failure::FfmpegFailed(text),
        }),
        next_stage(EventView::Killed) == Stage::Removing,
        next_action(EventView::Killed) == ActionView::RemoveOutput,
        next_stage(EventView::Removed) == Stage::Done,
        next_action(EventView::Removed) == (ActionView::Fail { error: Failure::Cancelled }),
{
}

/// Events and actions say what their texts say.
pub proof fn law_events_and_actions_are_what_they_hold(
    text: String,
    flag: bool,
    error: AppError,
    source: &str,
)
    ensures
        (Event::Line { text, cancel_requested: flag })@ == (EventView::Line {
            text: text@,
            cancel_requested: flag,
        }),
        Event::EndOfProgress@ == EventView::EndOfProgress,
        Event::Killed@ == EventView::Killed,
        Event::Removed@ == EventView::Removed,
        (Event::Exited { success: flag })@ == (EventView::Exited { success: flag }),
        (Event::WaitFailed { cause: text })@ == (EventView::WaitFailed { cause: text@ }),
        (Event::Stderr { text })@ == (EventView::Stderr { text: text@ }),
        Action::ReadLine@ == ActionView::ReadLine,
        (Action::Report { time_us: text })@ == (ActionView::Report { time_us: text@ }),
        Action::Kill@ == ActionView::Kill,
        Action::RemoveOutput@ == ActionView::RemoveOutput,
        Action::Wait@ == ActionView::Wait,
        Action::ReadStderr@ == ActionView::ReadStderr,
        Action::Succeed@ == ActionView::Succeed,
        (Action::Fail { error })@ == (ActionView::Fail { error: error@ }),
        text_of(Some(source)) == Some(source@),
        text_of(None) is None,
{
}

/// Each stage of an extraction can take the events that its action can bring: lines of progress
/// until they end, and then one event after the other until the extraction is over.
pub proof fn law_stages_take_what_comes(text: Seq<char>, flag: bool)
    ensures
        awaits(Stage::Reading, EventView::Line { text, cancel_requested: flag }),
        awaits(Stage::Reading, EventView::EndOfProgress),
        awaits(Stage::Killing, EventView::Killed),
        awaits(Stage::Removing, EventView::Removed),
        awaits(Stage::Waiting, EventView::Exited { success: flag }),
        awaits(Stage::Waiting, EventView::WaitFailed { cause: text }),
        awaits(Stage::Draining, EventView::Stderr { text }),
{
}

} // verus!
