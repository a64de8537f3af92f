//! The task that runs one transcode: it probes the video, starts FFmpeg and moves its output to the
//! buffer, until FFmpeg is done or the transcode is given up.

use vstd::prelude::*;

use crate::args::words;
use crate::probe::Seconds;
use crate::rules::is_browser_codec;
use crate::transcode::{
    duration_or_zero, is_first_free, read_action, read_bytes, transcode_args, transcode_query,
    ActiveTranscode, ActiveView, ReadOutcome, SessionView, TranscodeAction, TranscodeSession,
};

verus! {

/// How far a task has come.
#[derive(Debug, Clone, Copy, PartialEq, Eq, Structural)]
pub enum TaskStage {
    /// The duration of the video is being probed for. Every task begins here.
    Probing,
    /// The codec of the video is being probed for.
    Choosing,
    /// FFmpeg is being started.
    Spawning,
    /// Output of FFmpeg is being read.
    Reading,
    /// FFmpeg is being killed.
    Killing,
    /// FFmpeg is about to exit.
    Waiting,
    /// The task is over.
    Over,
}

/// What happened to a task.
#[derive(Debug)]
pub enum TaskEvent {
    /// The duration was probed for.
    DurationProbed { duration: Option<Seconds> },
    /// The codec was probed for.
    CodecProbed { codec: Option<String> },
    /// FFmpeg could not be started.
    SpawnFailed,
    /// FFmpeg was started, with or without an output to read.
    Spawned { has_output: bool },
    /// A read ended.
    ReadEnded { outcome: ReadOutcome },
    /// FFmpeg was killed.
    Killed,
    /// FFmpeg exited, or waiting for it failed.
    Exited,
}

/// What a task does next.
#[derive(Debug)]
pub enum TaskAction {
    /// Probe for the codec of the video.
    ProbeCodec,
    /// Start FFmpeg.
    Spawn { args: Vec<String> },
    /// Read output of FFmpeg.
    Read,
    /// Kill FFmpeg.
    Kill,
    /// Wait for FFmpeg to exit.
    Wait,
    /// End the task, which has brought so many bytes.
    Finish { size: usize },
}

/// What a task does next, with texts as sequences of characters.
pub enum TaskActionView {
    ProbeCodec,
    Spawn { args: Seq<Seq<char>> },
    Read,
    Kill,
    Wait,
    Finish { size: nat },
}

impl View for TaskAction {
    type V = TaskActionView;

    open spec fn view(&self) -> TaskActionView {
        match self {
            TaskAction::ProbeCodec => TaskActionView::ProbeCodec,
            TaskAction::Spawn { args } => TaskActionView::Spawn { args: words(args@) },
            TaskAction::Read => TaskActionView::Read,
            TaskAction::Kill => TaskActionView::Kill,
            TaskAction::Wait => TaskActionView::Wait,
            TaskAction::Finish { size } => TaskActionView::Finish { size: *size as nat },
        }
    }
}

/// Whether an event can happen at a stage.
pub open spec fn task_awaits(stage: TaskStage, event: TaskEvent) -> bool {
    match stage {
        TaskStage::Probing => event is DurationProbed,
        TaskStage::Choosing => event is CodecProbed,
        TaskStage::Spawning => event is SpawnFailed || event is Spawned,
        TaskStage::Reading => event is ReadEnded,
        TaskStage::Killing => event is Killed,
        TaskStage::Waiting => event is Exited,
        TaskStage::Over => false,
    }
}

/// What an event of a task makes of its session, whether that was given up or not: what was read
/// is added at the end of the buffer, and the session is complete when FFmpeg is gone or could not
/// be started.
pub open spec fn task_effect(session: SessionView, event: TaskEvent) -> SessionView {
    match event {
        TaskEvent::DurationProbed { duration } => SessionView {
            duration: Some(duration_or_zero(duration)),
            ..session
        },
        TaskEvent::ReadEnded { outcome } => SessionView {
            bytes: session.bytes + read_bytes(outcome),
            ..session
        },
        TaskEvent::SpawnFailed => SessionView { complete: true, ..session },
        TaskEvent::Exited => SessionView { complete: true, ..session },
        _ => session,
    }
}

/// What a task does when it could read on: it does, unless its session was given up.
pub open spec fn read_on(session: SessionView) -> (TaskStage, TaskActionView) {
    if session.aborted {
        (TaskStage::Killing, TaskActionView::Kill)
    } else {
        (TaskStage::Reading, TaskActionView::Read)
    }
}

/// The stage and the action after an event that can happen, from the session after it.
pub open spec fn task_next(session: SessionView, path: Seq<char>, event: TaskEvent) -> (
    TaskStage,
    TaskActionView,
) {
    match event {
        TaskEvent::DurationProbed { duration } => (TaskStage::Choosing, TaskActionView::ProbeCodec),
        TaskEvent::CodecProbed { codec } => (
            TaskStage::Spawning,
            TaskActionView::Spawn {
                args: transcode_query(
                    path,
                    match codec {
                        Some(c) => is_browser_codec(c@),
                        None => is_browser_codec(Seq::empty()),
                    },
                ),
            },
        ),
        TaskEvent::SpawnFailed => (
            TaskStage::Over,
            TaskActionView::Finish { size: session.bytes.len() },
        ),
        TaskEvent::Spawned { has_output } => if has_output {
            read_on(session)
        } else {
            (TaskStage::Waiting, TaskActionView::Wait)
        },
        TaskEvent::ReadEnded { outcome } => match read_action(outcome) {
            TranscodeAction::Read => read_on(session),
            TranscodeAction::Stop => (TaskStage::Waiting, TaskActionView::Wait),
            TranscodeAction::KillAndStop => (TaskStage::Killing, TaskActionView::Kill),
        },
        TaskEvent::Killed => (TaskStage::Waiting, TaskActionView::Wait),
        TaskEvent::Exited => (TaskStage::Over, TaskActionView::Finish { size: session.bytes.len() }),
    }
}

/// Decides whether a task reads on.
fn decide_read(session: &TranscodeSession) -> (next: (TaskStage, TaskAction))
    ensures
        (next.0, next.1@) == read_on(session@),
{
    match session.before_read() {
        TranscodeAction::Read => (TaskStage::Reading, TaskAction::Read),
        _ => (TaskStage::Killing, TaskAction::Kill),
    }
}

/// Notes an event of the task that transcodes the video at `path` in its session, and decides what
/// the task does next.
pub fn advance_task(
    session: &mut TranscodeSession,
    path: &str,
    stage: TaskStage,
    event: TaskEvent,
) -> (next: (TaskStage, TaskAction))
    requires
        old(session).wf(),
        task_awaits(stage, event),
    ensures
        final(session).wf(),
        final(session)@ == task_effect(old(session)@, event),
        (next.0, next.1@) == task_next(final(session)@, path@, event),
{
    match event {
        TaskEvent::DurationProbed { duration } => {
            session.set_duration(duration);
            (TaskStage::Choosing, TaskAction::ProbeCodec)
        },
        TaskEvent::CodecProbed { codec } => {
            let args: Vec<String> = match &codec {
                Some(c) => transcode_args(path, Some(c.as_str())),
                None => transcode_args(path, None),
            };
            (TaskStage::Spawning, TaskAction::Spawn { args })
        },
        TaskEvent::SpawnFailed => {
            session.mark_complete();
            (TaskStage::Over, TaskAction::Finish { size: session.buffer().len() })
        },
        TaskEvent::Spawned { has_output } => {
            if has_output {
                decide_read(session)
            } else {
                (TaskStage::Waiting, TaskAction::Wait)
            }
        },
        TaskEvent::ReadEnded { outcome } => match session.after_read(outcome) {
            TranscodeAction::Read => decide_read(session),
            TranscodeAction::Stop => (TaskStage::Waiting, TaskAction::Wait),
            TranscodeAction::KillAndStop => (TaskStage::Killing, TaskAction::Kill),
        },
        TaskEvent::Killed => (TaskStage::Waiting, TaskAction::Wait),
        TaskEvent::Exited => {
            session.mark_complete();
            (TaskStage::Over, TaskAction::Finish { size: session.buffer().len() })
        },
    }
}

/// What an event of the task with the given ticket makes of the known sessions: its session
/// changes, and is forgotten once it is complete and was given up.
pub open spec fn after_event(active: ActiveView, ticket: u64, event: TaskEvent) -> ActiveView {
    let session = task_effect(active.sessions[ticket], event);
    if !active.sessions.contains_key(ticket) {
        active
    } else if session.complete && !active.is_current(ticket) {
        ActiveView { sessions: active.sessions.remove(ticket), ..active }
    } else {
        ActiveView { sessions: active.sessions.insert(ticket, session), ..active }
    }
}

/// Notes an event of the task with the given ticket, which transcodes the video at `path`, and
/// decides what the task does next. There is nothing to decide if no session has the ticket.
pub fn advance_ticket(
    active: &mut ActiveTranscode,
    ticket: u64,
    path: &str,
    stage: TaskStage,
    event: TaskEvent,
) -> (next: Option<(TaskStage, TaskAction)>)
    requires
        old(active).wf(),
        task_awaits(stage, event),
    ensures
        final(active).wf(),
        final(active)@ == after_event(old(active)@, ticket, event),
        match next {
            Some(n) => {
                &&& old(active)@.sessions.contains_key(ticket)
                &&& (n.0, n.1@) == task_next(
                    task_effect(old(active)@.sessions[ticket], event),
                    path@,
                    event,
                )
            },
            None => !old(active)@.sessions.contains_key(ticket),
        },
{
    let ghost before = active@;
    let current: bool = active.is_current(ticket);
    match active.take(ticket) {
        Some(mut session) => {
            let next: (TaskStage, TaskAction) = advance_task(&mut session, path, stage, event);
            if current || !session.complete() {
                active.put(ticket, session);
            }
            assert(active@.sessions =~= after_event(before, ticket, event).sessions);
            Some(next)
        },
        None => {
            assert(active@.sessions =~= before.sessions);
            None
        },
    }
}

/// However a task ends, its session is complete, given up or not, and the size that it ends with
/// is that of the buffer.
pub proof fn law_task_ends_complete(session: SessionView, path: Seq<char>, event: TaskEvent)
    requires
        task_next(task_effect(session, event), path, event).0 is Over,
    ensures
        task_effect(session, event).complete,
        task_next(task_effect(session, event), path, event).1 == (TaskActionView::Finish {
            size: task_effect(session, event).bytes.len(),
        }),
{
}

/// A task whose session was given up is not told to read again.
pub proof fn law_given_up_task_reads_no_more(
    session: SessionView,
    path: Seq<char>,
    event: TaskEvent,
)
    requires
        session.aborted,
    ensures
        !(task_next(session, path, event).1 is Read),
{
}

/// A moment in the run of a task: an event, and whether the session has been given up by then.
pub struct Moment {
    pub event: TaskEvent,
    pub aborted: bool,
}

/// The session when an event comes, which may have been given up since the event before.
pub open spec fn session_at(session: SessionView, moment: Moment) -> SessionView {
    SessionView { aborted: session.aborted || moment.aborted, ..session }
}

/// The session after a run.
pub open spec fn session_after(start: SessionView, moments: Seq<Moment>) -> SessionView
    decreases moments.len(),
{
    if moments.len() == 0 {
        start
    } else {
        let moment = moments.last();
        task_effect(session_at(session_after(start, moments.drop_last()), moment), moment.event)
    }
}

/// The stage after a run.
pub open spec fn stage_after(start: SessionView, path: Seq<char>, moments: Seq<Moment>) -> TaskStage {
    if moments.len() == 0 {
        TaskStage::Probing
    } else {
        task_next(session_after(start, moments), path, moments.last().event).0
    }
}

/// Whether each event of a run can happen when it does.
pub open spec fn is_task_run(start: SessionView, path: Seq<char>, moments: Seq<Moment>) -> bool
    decreases moments.len(),
{
    moments.len() == 0 || (is_task_run(start, path, moments.drop_last()) && task_awaits(
        stage_after(start, path, moments.drop_last()),
        moments.last().event,
    ))
}

/// The bytes that an event brought.
pub open spec fn event_bytes(event: TaskEvent) -> Seq<u8> {
    match event {
        TaskEvent::ReadEnded { outcome } => read_bytes(outcome),
        _ => Seq::empty(),
    }
}

/// All bytes that were read in a run, in the order in which they came.
pub open spec fn all_read(moments: Seq<Moment>) -> Seq<u8>
    decreases moments.len(),
{
    if moments.len() == 0 {
        Seq::empty()
    } else {
        all_read(moments.drop_last()) + event_bytes(moments.last().event)
    }
}

/// Whether FFmpeg could not be started in a run, or was started when the session had been given up.
pub open spec fn is_cut_short(start: SessionView, moments: Seq<Moment>) -> bool
    decreases moments.len(),
{
    moments.len() > 0 && {
        ||| is_cut_short(start, moments.drop_last())
        ||| moments.last().event is SpawnFailed
        ||| moments.last().event is Spawned && session_after(start, moments).aborted
    }
}

/// What a run has done by the stage it has come to.
proof fn lemma_task_run(start: SessionView, path: Seq<char>, moments: Seq<Moment>)
    requires
        is_task_run(start, path, moments),
    ensures
        ({
            let session = session_after(start, moments);
            let stage = stage_after(start, path, moments);
            &&& session.bytes == start.bytes + all_read(moments)
            &&& stage is Probing <==> moments.len() == 0
            &&& moments.len() > 0 ==> (moments[0].event matches TaskEvent::DurationProbed { duration }
                && session.duration == Some(duration_or_zero(duration)))
            &&& stage is Over ==> session.complete
            &&& stage is Probing || stage is Choosing || stage is Spawning ==> all_read(moments).len()
                == 0 && !is_cut_short(start, moments)
            &&& is_cut_short(start, moments) ==> all_read(moments).len() == 0 && (stage is Killing
                || stage is Waiting || stage is Over)
        }),
    decreases moments.len(),
{
    if moments.len() == 0 {
        assert(start.bytes + all_read(moments) =~= start.bytes);
    } else {
        let before = moments.drop_last();
        lemma_task_run(start, path, before);
        assert(before.len() > 0 ==> before[0] == moments[0]);
        let event = moments.last().event;
        assert(session_after(start, moments).bytes =~= start.bytes + all_read(moments));
        assert(!(event is ReadEnded) ==> all_read(moments) =~= all_read(before));
    }
}

/// However the run of a task goes, and whenever its session is given up, the session holds in the
/// end what it held before and then every byte that was read, in order; it is complete and has the
/// duration that was probed for. Nothing is read if FFmpeg could not be started, or if the session
/// had been given up by then.
pub proof fn law_run_fills_the_session(start: SessionView, path: Seq<char>, moments: Seq<Moment>)
    requires
        is_task_run(start, path, moments),
        stage_after(start, path, moments) is Over,
    ensures
        session_after(start, moments).bytes == start.bytes + all_read(moments),
        session_after(start, moments).complete,
        moments[0].event matches TaskEvent::DurationProbed { duration } && session_after(
            start,
            moments,
        ).duration == Some(duration_or_zero(duration)),
        is_cut_short(start, moments) ==> all_read(moments) == Seq::<u8>::empty(),
{
    lemma_task_run(start, path, moments);
    if is_cut_short(start, moments) {
        assert(all_read(moments) =~= Seq::<u8>::empty());
    }
}

/// A task gives up no session and revives none.
pub proof fn law_task_leaves_abort_alone(session: SessionView, event: TaskEvent)
    ensures
        task_effect(session, event).aborted == session.aborted,
{
}

/// What is done with the known sessions: a request for a transcode, which starts a session under
/// the given ticket if there is none, a clean-up, or an event of a task.
pub enum Operation {
    Request { path: Seq<char>, ticket: u64 },
    CleanUp,
    Task { ticket: u64, event: TaskEvent },
}

/// Whether an operation can happen: a session is started under the first free ticket.
pub open spec fn can_happen(active: ActiveView, operation: Operation) -> bool {
    operation matches Operation::Request { path, ticket } ==> active.is_for(path) || is_first_free(
        active.after_cleanup().sessions,
        ticket,
    )
}

/// What an operation makes of the known sessions.
pub open spec fn operated(active: ActiveView, operation: Operation) -> ActiveView {
    match operation {
        Operation::Request { path, ticket } => if active.is_for(path) {
            active
        } else {
            active.after_start(path, ticket)
        },
        Operation::CleanUp => active.after_cleanup(),
        Operation::Task { ticket, event } => after_event(active, ticket, event),
    }
}

/// The known sessions after some operations.
pub open spec fn after_all(active: ActiveView, operations: Seq<Operation>) -> ActiveView
    decreases operations.len(),
{
    if operations.len() == 0 {
        active
    } else {
        operated(after_all(active, operations.drop_last()), operations.last())
    }
}

/// Whether each operation can happen when it does, and none is the end of the task with the given
/// ticket.
pub open spec fn spares(active: ActiveView, operations: Seq<Operation>, ticket: u64) -> bool
    decreases operations.len(),
{
    operations.len() == 0 || {
        &&& spares(active, operations.drop_last(), ticket)
        &&& can_happen(after_all(active, operations.drop_last()), operations.last())
        &&& operations.last() matches Operation::Task { ticket: other, event } ==> other != ticket || !(
        event is SpawnFailed || event is Exited)
    }
}

/// Every operation keeps the known sessions in order: one is active at most, and all others have
/// been given up.
pub proof fn law_operations_keep_order(active: ActiveView, operation: Operation)
    requires
        active.in_order(),
        can_happen(active, operation),
    ensures
        operated(active, operation).in_order(),
{
}

/// A session that was given up stays given up until its task has ended, whatever else is done: it
/// is kept, never becomes the active one, and keeps its bytes.
pub proof fn law_given_up_session_stays_given_up(
    active: ActiveView,
    operations: Seq<Operation>,
    ticket: u64,
)
    requires
        active.in_order(),
        active.is_given_up(ticket),
        spares(active, operations, ticket),
    ensures
        after_all(active, operations).in_order(),
        after_all(active, operations).is_given_up(ticket),
        after_all(active, operations).sessions[ticket].aborted,
        active.sessions[ticket].bytes.is_prefix_of(
            after_all(active, operations).sessions[ticket].bytes,
        ),
    decreases operations.len(),
{
    if operations.len() > 0 {
        let before = after_all(active, operations.drop_last());
        law_given_up_session_stays_given_up(active, operations.drop_last(), ticket);
        law_operations_keep_order(before, operations.last());
        let after = after_all(active, operations);
        assert(before.sessions[ticket].bytes.is_prefix_of(after.sessions[ticket].bytes));
    }
}

/// An event changes a session only by what it brings: the duration that was probed for, the bytes
/// that were read, or that FFmpeg is gone or could not be started.
pub proof fn law_effects_of_events(
    session: SessionView,
    duration: Option<Seconds>,
    codec: Option<String>,
    has_output: bool,
    outcome: ReadOutcome,
)
    ensures
        task_effect(session, TaskEvent::DurationProbed { duration }) == (SessionView {
            duration: Some(
                match duration {
                    Some(d) => d,
                    None => (Seconds { bits: 0 }),
                },
            ),
            ..session
        }),
        task_effect(session, TaskEvent::CodecProbed { codec }) == session,
        task_effect(session, TaskEvent::Spawned { has_output }) == session,
        task_effect(session, TaskEvent::Killed) == session,
        task_effect(session, TaskEvent::SpawnFailed) == (SessionView { complete: true, ..session }),
        task_effect(session, TaskEvent::Exited) == (SessionView { complete: true, ..session }),
        outcome matches ReadOutcome::Data(chunk) ==> task_effect(
            session,
            TaskEvent::ReadEnded { outcome },
        ) == (SessionView { bytes: session.bytes + chunk@, ..session }),
        !(outcome is Data) ==> task_effect(session, TaskEvent::ReadEnded { outcome }) == session,
{
    if !(outcome is Data) {
        assert(session.bytes + read_bytes(outcome) =~= session.bytes);
    }
}

/// The course of a task: it probes the duration, then the codec, and starts FFmpeg with arguments
/// for that codec. It reads as long as there is output and the session goes on. It kills FFmpeg
/// when the session was given up or a read took too long, waits for FFmpeg to exit, and ends.
pub proof fn law_course_of_a_task(
    session: SessionView,
    path: Seq<char>,
    duration: Option<Seconds>,
    codec: Option<String>,
    outcome: ReadOutcome,
)
    ensures
        task_next(session, path, TaskEvent::DurationProbed { duration }) == (
            TaskStage::Choosing,
            TaskActionView::ProbeCodec,
        ),
        task_next(session, path, TaskEvent::CodecProbed { codec }) == (
            TaskStage::Spawning,
            TaskActionView::Spawn {
                args: transcode_query(
                    path,
                    codec matches Some(c) && (c@ == "h264"@ || c@ == "vp8"@ || c@ == "vp9"@ || c@
                        == "av1"@),
                ),
            },
        ),
        ({
            let wait = (TaskStage::Waiting, TaskActionView::Wait);
            let kill = (TaskStage::Killing, TaskActionView::Kill);
            let read = (TaskStage::Reading, TaskActionView::Read);
            let finish = (TaskStage::Over, TaskActionView::Finish { size: session.bytes.len() });
            let after_read = task_next(session, path, TaskEvent::ReadEnded { outcome });
            &&& task_next(session, path, TaskEvent::Spawned { has_output: false }) == wait
            &&& task_next(session, path, TaskEvent::Spawned { has_output: true }) == (
            if session.aborted {
                kill
            } else {
                read
            })
            &&& outcome matches ReadOutcome::Data(chunk) ==> after_read == (if chunk@.len() == 0 {
                wait
            } else if session.aborted {
                kill
            } else {
                read
            })
            &&& outcome is EndOfStream || outcome is Failed ==> after_read == wait
            &&& outcome is TimedOut ==> after_read == kill
            &&& task_next(session, path, TaskEvent::Killed) == wait
            &&& task_next(session, path, TaskEvent::Exited) == finish
            &&& task_next(session, path, TaskEvent::SpawnFailed) == finish
        }),
{
    reveal_strlit("h264");
    reveal_strlit("vp8");
    reveal_strlit("vp9");
    reveal_strlit("av1");
    assert("h264"@.len() == 4 && "vp8"@.len() == 3 && "vp9"@.len() == 3 && "av1"@.len() == 3);
}

/// An event changes the session of its task and no other, and never which session is active. The
/// session is forgotten exactly if it is complete after the event and not the active one.
pub proof fn law_event_concerns_its_session(
    active: ActiveView,
    ticket: u64,
    other: u64,
    event: TaskEvent,
)
    ensures
        ({
            let after = after_event(active, ticket, event);
            let session = task_effect(active.sessions[ticket], event);
            &&& after.current == active.current
            &&& other != ticket ==> {
                &&& after.sessions.contains_key(other) <==> active.sessions.contains_key(other)
                &&& after.sessions[other] == active.sessions[other]
            }
            &&& !active.sessions.contains_key(ticket) ==> after == active
            &&& active.sessions.contains_key(ticket) ==> {
                &&& after.sessions.contains_key(ticket) <==> active.is_current(ticket)
                    || !session.complete
                &&& after.sessions.contains_key(ticket) ==> after.sessions[ticket] == session
            }
        }),
{
}

/// Each stage of a task can take the events that its action can bring.
pub proof fn law_task_stages_take_what_comes(
    duration: Option<Seconds>,
    codec: Option<String>,
    has_output: bool,
    outcome: ReadOutcome,
)
    ensures
        task_awaits(TaskStage::Probing, TaskEvent::DurationProbed { duration }),
        task_awaits(TaskStage::Choosing, TaskEvent::CodecProbed { codec }),
        task_awaits(TaskStage::Spawning, TaskEvent::SpawnFailed),
        task_awaits(TaskStage::Spawning, TaskEvent::Spawned { has_output }),
        task_awaits(TaskStage::Reading, TaskEvent::ReadEnded { outcome }),
        task_awaits(TaskStage::Killing, TaskEvent::Killed),
        task_awaits(TaskStage::Waiting, TaskEvent::Exited),
{
}

/// Actions say what their texts and numbers say.
pub proof fn law_task_actions_are_what_they_hold(args: Vec<String>, size: usize)
    ensures
        TaskAction::ProbeCodec@ == TaskActionView::ProbeCodec,
        (TaskAction::Spawn { args })@ == (TaskActionView::Spawn { args: words(args@) }),
        TaskAction::Read@ == TaskActionView::Read,
        TaskAction::Kill@ == TaskActionView::Kill,
        TaskAction::Wait@ == TaskActionView::Wait,
        (TaskAction::Finish { size })@ == (TaskActionView::Finish { size: size as nat }),
{
}

} // verus!
