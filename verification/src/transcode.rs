//! Transcoding a video that browsers cannot play: one video at a time, into a buffer in memory
//! that grows while FFmpeg runs.

use std::collections::HashMap;

use vstd::prelude::*;
use vstd::string::*;

use crate::args::{add_words, words};
use crate::mp4::{fragment_offsets, parse_mp4_fragment_offsets, positions};
use crate::probe::{Seconds, ONE_SECOND, ZERO_SECONDS};
use crate::rules::{is_browser_codec, is_browser_compatible_video_codec};
use crate::text::same_text;

verus! {

/// The FFmpeg arguments that turn a video into a fragmented MP4 stream on standard output. Video
/// that browsers decode is copied, other video is encoded.
pub open spec fn transcode_query(path: Seq<char>, copies: bool) -> Seq<Seq<char>> {
    seq!["-i"@, path] + (if copies {
        seq!["-c"@, "copy"@]
    } else {
        seq![
            "-c:v"@,
            "libx264"@,
            "-preset"@,
            "ultrafast"@,
            "-crf"@,
            "28"@,
            "-profile:v"@,
            "baseline"@,
            "-c:a"@,
            "aac"@,
            "-b:a"@,
            "128k"@,
        ]
    }) + seq![
        "-movflags"@,
        "frag_keyframe+empty_moov+default_base_moof"@,
        "-f"@,
        "mp4"@,
        "pipe:1"@,
    ]
}

/// Makes the FFmpeg arguments that transcode the video at `path`, given the codec of its video
/// stream. A codec that is not known has the empty name.
pub fn transcode_args(path: &str, video_codec: Option<&str>) -> (args: Vec<String>)
    ensures
        words(args@) == transcode_query(
            path@,
            match video_codec {
                Some(codec) => is_browser_codec(codec@),
                None => is_browser_codec(Seq::empty()),
            },
        ),
{
    let no_codec: String = String::new();
    let codec: &str = match video_codec {
        Some(c) => c,
        None => no_codec.as_str(),
    };
    let mut args: Vec<String> = Vec::new();
    let input: [&str; 2] = ["-i", path];
    add_words(&mut args, input.as_slice());
    let copies: bool = is_browser_compatible_video_codec(codec);
    if copies {
        let list: [&str; 2] = ["-c", "copy"];
        add_words(&mut args, list.as_slice());
    } else {
        let list: [&str; 12] = [
            "-c:v",
            "libx264",
            "-preset",
            "ultrafast",
            "-crf",
            "28",
            "-profile:v",
            "baseline",
            "-c:a",
            "aac",
            "-b:a",
            "128k",
        ];
        add_words(&mut args, list.as_slice());
    }
    let container: [&str; 5] = [
        "-movflags",
        "frag_keyframe+empty_moov+default_base_moof",
        "-f",
        "mp4",
        "pipe:1",
    ];
    add_words(&mut args, container.as_slice());
    assert(words(args@) =~= transcode_query(path@, copies));
    args
}

/// What a transcode has produced so far.
pub struct TranscodeSession {
    buffer: Vec<u8>,
    complete: bool,
    abort: bool,
    /// The fragments of the first bytes of the buffer, and how many bytes those are.
    frag_cache: (Vec<usize>, usize),
    duration_secs: Option<Seconds>,
}

/// A session without its cache.
#[verifier::ext_equal]
pub struct SessionView {
    /// The bytes that have been produced.
    pub bytes: Seq<u8>,
    /// Whether the transcode has ended.
    pub complete: bool,
    /// Whether the transcode is to be given up.
    pub aborted: bool,
    /// The duration of the video, once it is known.
    pub duration: Option<Seconds>,
}

/// What came of waiting for more output of FFmpeg.
#[derive(Debug)]
pub enum ReadOutcome {
    Data(Vec<u8>),
    EndOfStream,
    Failed,
    TimedOut,
}

/// What the task that runs a transcode does next.
#[derive(Debug, Clone, Copy, PartialEq, Eq, Structural)]
pub enum TranscodeAction {
    Read,
    Stop,
    KillAndStop,
}

/// The bytes that a read brought.
pub open spec fn read_bytes(outcome: ReadOutcome) -> Seq<u8> {
    match outcome {
        ReadOutcome::Data(chunk) => chunk@,
        _ => Seq::empty(),
    }
}

/// What is done after a read. The end of the stream and an error end the transcode; after a
/// time-out FFmpeg is killed as well.
pub open spec fn read_action(outcome: ReadOutcome) -> TranscodeAction {
    match outcome {
        ReadOutcome::Data(chunk) => if chunk@.len() == 0 {
            TranscodeAction::Stop
        } else {
            TranscodeAction::Read
        },
        ReadOutcome::EndOfStream => TranscodeAction::Stop,
        ReadOutcome::Failed => TranscodeAction::Stop,
        ReadOutcome::TimedOut => TranscodeAction::KillAndStop,
    }
}

impl ReadOutcome {
    /// Decides what is done after a read.
    fn action(&self) -> (action: TranscodeAction)
        ensures
            action == read_action(*self),
    {
        match self {
            ReadOutcome::Data(chunk) => if chunk.len() == 0 {
                TranscodeAction::Stop
            } else {
                TranscodeAction::Read
            },
            ReadOutcome::EndOfStream => TranscodeAction::Stop,
            ReadOutcome::Failed => TranscodeAction::Stop,
            ReadOutcome::TimedOut => TranscodeAction::KillAndStop,
        }
    }
}

impl View for TranscodeSession {
    type V = SessionView;

    closed spec fn view(&self) -> SessionView {
        SessionView {
            bytes: self.buffer@,
            complete: self.complete,
            aborted: self.abort,
            duration: self.duration_secs,
        }
    }
}

/// A session that has just been started.
pub open spec fn fresh() -> SessionView {
    SessionView { bytes: Seq::empty(), complete: false, aborted: false, duration: None }
}

/// The duration of a session's video, and one second until it is known.
pub open spec fn duration_or_one(session: SessionView) -> Seconds {
    match session.duration {
        Some(d) => d,
        None => (Seconds { bits: ONE_SECOND }),
    }
}

/// A duration that was probed for, and 0 when it could not be found out.
pub open spec fn duration_or_zero(probed: Option<Seconds>) -> Seconds {
    match probed {
        Some(d) => d,
        None => (Seconds { bits: ZERO_SECONDS }),
    }
}

impl TranscodeSession {
    /// The cache agrees with the bytes that it was made from.
    pub closed spec fn wf(&self) -> bool {
        &&& self.frag_cache.1 <= self.buffer@.len()
        &&& positions(self.frag_cache.0@) == fragment_offsets(
            self.buffer@.take(self.frag_cache.1 as int),
        )
    }

    /// Starts with an empty buffer.
    pub fn new() -> (session: TranscodeSession)
        ensures
            session.wf(),
            session@ == fresh(),
    {
        let session: TranscodeSession = TranscodeSession {
            buffer: Vec::new(),
            complete: false,
            abort: false,
            frag_cache: (Vec::new(), 0),
            duration_secs: None,
        };
        assert(positions(session.frag_cache.0@) =~= fragment_offsets(session.buffer@.take(0)));
        session
    }

    /// The bytes that have been produced.
    pub fn buffer(&self) -> (bytes: &[u8])
        ensures
            bytes@ == self@.bytes,
    {
        self.buffer.as_slice()
    }

    /// Whether the transcode has ended.
    pub fn complete(&self) -> (yes: bool)
        ensures
            yes == self@.complete,
    {
        self.complete
    }

    /// Whether the transcode is to be given up.
    pub fn aborted(&self) -> (yes: bool)
        ensures
            yes == self@.aborted,
    {
        self.abort
    }

    /// Where the fragments begin that the buffer holds. The buffer is read again only if it has
    /// grown since the last time.
    pub fn get_fragment_offsets(&mut self) -> (offsets: Vec<usize>)
        requires
            old(self).wf(),
        ensures
            final(self).wf(),
            final(self)@ == old(self)@,
            positions(offsets@) == fragment_offsets(old(self)@.bytes),
    {
        let len: usize = self.buffer.len();
        assert(self.buffer@.take(len as int) =~= self.buffer@);
        if self.frag_cache.1 != len {
            let offsets: Vec<usize> = parse_mp4_fragment_offsets(self.buffer.as_slice());
            self.frag_cache = (offsets, len);
        }
        let cached: Vec<usize> = self.frag_cache.0.clone();
        assert(cached@ =~= self.frag_cache.0@);
        cached
    }

    /// The duration of the video, and one second until it is known.
    pub fn get_duration(&self) -> (duration: Seconds)
        ensures
            duration == duration_or_one(self@),
    {
        match self.duration_secs {
            Some(d) => d,
            None => Seconds { bits: ONE_SECOND },
        }
    }

    /// Keeps the duration of the video. One that could not be found out counts as 0.
    pub fn set_duration(&mut self, probed: Option<Seconds>)
        requires
            old(self).wf(),
        ensures
            final(self).wf(),
            final(self)@ == (SessionView {
                duration: Some(duration_or_zero(probed)),
                ..old(self)@
            }),
    {
        let duration: Seconds = match probed {
            Some(d) => d,
            None => Seconds { bits: ZERO_SECONDS },
        };
        self.duration_secs = Some(duration);
    }

    /// Gives the transcode up: the task that runs it stops before it reads again.
    pub fn request_abort(&mut self)
        requires
            old(self).wf(),
        ensures
            final(self).wf(),
            final(self)@ == (SessionView { aborted: true, ..old(self)@ }),
    {
        self.abort = true;
    }

    /// Notes that the transcode has ended.
    pub fn mark_complete(&mut self)
        requires
            old(self).wf(),
        ensures
            final(self).wf(),
            final(self)@ == (SessionView { complete: true, ..old(self)@ }),
    {
        self.complete = true;
    }

    /// Decides whether the task reads on.
    pub fn before_read(&self) -> (action: TranscodeAction)
        ensures
            action == if self@.aborted {
                TranscodeAction::KillAndStop
            } else {
                TranscodeAction::Read
            },
    {
        if self.abort {
            TranscodeAction::KillAndStop
        } else {
            TranscodeAction::Read
        }
    }

    /// Takes in what came of a read, and decides what the task does next.
    pub fn after_read(&mut self, outcome: ReadOutcome) -> (action: TranscodeAction)
        requires
            old(self).wf(),
        ensures
            final(self).wf(),
            final(self)@ == (SessionView {
                bytes: old(self)@.bytes + read_bytes(outcome),
                ..old(self)@
            }),
            action == read_action(outcome),
    {
        let action: TranscodeAction = outcome.action();
        let ghost before = self.buffer@;
        let ghost known = self.frag_cache.1 as int;
        match &outcome {
            ReadOutcome::Data(chunk) => {
                self.buffer.extend_from_slice(chunk.as_slice());
            },
            _ => {},
        }
        assert(self.buffer@ =~= before + read_bytes(outcome));
        assert(self.buffer@.take(known) =~= before.take(known));
        action
    }
}

/// The transcodes that are known: the active one, of which there is one at most, and those that
/// were given up while their tasks were still running. A session is known by its ticket.
pub struct ActiveTranscode {
    current: Option<(String, u64)>,
    sessions: HashMap<u64, TranscodeSession>,
}

/// The path of the video whose transcode is active, and the ticket of its session.
#[verifier::ext_equal]
pub struct CurrentView {
    pub path: Seq<char>,
    pub ticket: u64,
}

/// The active transcode, if any, and all sessions by their tickets.
#[verifier::ext_equal]
pub struct ActiveView {
    pub current: Option<CurrentView>,
    pub sessions: Map<u64, SessionView>,
}

impl View for ActiveTranscode {
    type V = ActiveView;

    closed spec fn view(&self) -> ActiveView {
        ActiveView {
            current: match self.current {
                Some(entry) => Some(CurrentView { path: entry.0@, ticket: entry.1 }),
                None => None,
            },
            sessions: self.sessions@.map_values(|session: TranscodeSession| session@),
        }
    }
}

/// The first ticket that no session has.
pub open spec fn is_first_free(sessions: Map<u64, SessionView>, ticket: u64) -> bool {
    &&& !sessions.contains_key(ticket)
    &&& forall|t: u64| t < ticket ==> sessions.contains_key(t)
}

impl ActiveView {
    /// Whether the session with the given ticket is the active one.
    pub open spec fn is_current(self, ticket: u64) -> bool {
        self.current matches Some(entry) && entry.ticket == ticket
    }

    /// Whether the active transcode is that of the video at `path`.
    pub open spec fn is_for(self, path: Seq<char>) -> bool {
        self.current matches Some(entry) && entry.path == path
    }

    /// Whether the session with the given ticket was given up while its task was running.
    pub open spec fn is_given_up(self, ticket: u64) -> bool {
        self.sessions.contains_key(ticket) && !self.is_current(ticket)
    }

    /// The session that is active.
    pub open spec fn session(self) -> SessionView {
        self.sessions[self.current->0.ticket]
    }

    /// The active session is there and goes on; any other one has been given up and its task has
    /// not ended yet.
    pub open spec fn in_order(self) -> bool {
        &&& self.current matches Some(entry) ==> self.sessions.contains_key(entry.ticket)
            && !self.session().aborted
        &&& forall|ticket: u64|
            #[trigger] self.sessions.contains_key(ticket) && !self.is_current(ticket)
                ==> self.sessions[ticket].aborted && !self.sessions[ticket].complete
    }

    /// The state once the active session, if any, is given up. It is kept until its task has
    /// ended; if that has ended already it is forgotten.
    pub open spec fn after_cleanup(self) -> ActiveView {
        match self.current {
            None => self,
            Some(entry) => ActiveView {
                current: None,
                sessions: if self.session().complete {
                    self.sessions.remove(entry.ticket)
                } else {
                    self.sessions.insert(
                        entry.ticket,
                        SessionView { aborted: true, ..self.session() },
                    )
                },
            },
        }
    }

    /// The state once a session for the video at `path` is started under the given ticket, and the
    /// one that was active is given up.
    pub open spec fn after_start(self, path: Seq<char>, ticket: u64) -> ActiveView {
        ActiveView {
            current: Some(CurrentView { path, ticket }),
            sessions: self.after_cleanup().sessions.insert(ticket, fresh()),
        }
    }
}

/// What became of a request for the transcode of a video.
#[derive(Debug, Clone, Copy, PartialEq, Eq, Structural)]
pub enum Lookup {
    /// There is a session for the video already.
    Found,
    /// A new session was started under the given ticket.
    Started { ticket: u64 },
}

/// A set that holds all tickets below the given one has at least as many members.
proof fn lemma_tickets_below(tickets: Set<u64>, ticket: u64)
    requires
        tickets.finite(),
        forall|t: u64| t < ticket ==> tickets.contains(t),
    ensures
        ticket <= tickets.len(),
    decreases ticket,
{
    if ticket > 0 {
        let last = (ticket - 1) as u64;
        lemma_tickets_below(tickets.remove(last), last);
    }
}

impl ActiveTranscode {
    /// Every session is in order.
    pub closed spec fn sessions_wf(&self) -> bool {
        forall|ticket: u64| #[trigger]
            self.sessions@.contains_key(ticket) ==> self.sessions@[ticket].wf()
    }

    /// Every session is in order, and so are the sessions taken together.
    pub open spec fn wf(&self) -> bool {
        self.sessions_wf() && self@.in_order()
    }

    /// Nothing is transcoded at first.
    pub fn new() -> (active: ActiveTranscode)
        ensures
            active.wf(),
            active@ == (ActiveView { current: None, sessions: Map::empty() }),
    {
        let active: ActiveTranscode = ActiveTranscode { current: None, sessions: HashMap::new() };
        assert(active@.sessions =~= Map::empty());
        active
    }

    /// The session with the given ticket.
    pub fn session(&self, ticket: u64) -> (session: Option<&TranscodeSession>)
        requires
            self.wf(),
        ensures
            match session {
                Some(s) => self@.sessions.contains_key(ticket) && s.wf() && s@
                    == self@.sessions[ticket],
                None => !self@.sessions.contains_key(ticket),
            },
    {
        broadcast use vstd::std_specs::hash::group_hash_axioms;

        self.sessions.get(&ticket)
    }

    /// The session of the video whose transcode is active.
    pub fn current(&self) -> (session: Option<&TranscodeSession>)
        requires
            self.wf(),
        ensures
            match session {
                Some(s) => self@.current is Some && s.wf() && s@ == self@.session(),
                None => self@.current is None,
            },
    {
        match &self.current {
            Some(entry) => self.session(entry.1),
            None => None,
        }
    }

    /// Whether the session with the given ticket is the active one.
    pub fn is_current(&self, ticket: u64) -> (yes: bool)
        ensures
            yes == self@.is_current(ticket),
    {
        match &self.current {
            Some(entry) => entry.1 == ticket,
            None => false,
        }
    }

    /// Takes the session with the given ticket out, to work on it.
    pub(crate) fn take(&mut self, ticket: u64) -> (session: Option<TranscodeSession>)
        requires
            old(self).sessions_wf(),
        ensures
            final(self).sessions_wf(),
            final(self)@ == (ActiveView {
                sessions: old(self)@.sessions.remove(ticket),
                ..old(self)@
            }),
            match session {
                Some(s) => old(self)@.sessions.contains_key(ticket) && s.wf() && s@
                    == old(self)@.sessions[ticket],
                None => !old(self)@.sessions.contains_key(ticket),
            },
    {
        broadcast use vstd::std_specs::hash::group_hash_axioms;

        let ghost before = self@;
        let session: Option<TranscodeSession> = self.sessions.remove(&ticket);
        assert(self@.sessions =~= before.sessions.remove(ticket));
        session
    }

    /// Puts a session in place under the given ticket.
    pub(crate) fn put(&mut self, ticket: u64, session: TranscodeSession)
        requires
            old(self).sessions_wf(),
            session.wf(),
        ensures
            final(self).sessions_wf(),
            final(self)@ == (ActiveView {
                sessions: old(self)@.sessions.insert(ticket, session@),
                ..old(self)@
            }),
    {
        broadcast use vstd::std_specs::hash::group_hash_axioms;

        let ghost before = self@;
        let _ = self.sessions.insert(ticket, session);
        assert(self@.sessions =~= before.sessions.insert(ticket, session@));
    }

    /// Where the fragments of the active session begin, if there is one.
    pub fn get_fragment_offsets(&mut self) -> (offsets: Option<Vec<usize>>)
        requires
            old(self).wf(),
        ensures
            final(self).wf(),
            final(self)@ == old(self)@,
            match offsets {
                Some(found) => old(self)@.current is Some && positions(found@) == fragment_offsets(
                    old(self)@.session().bytes,
                ),
                None => old(self)@.current is None,
            },
    {
        let ghost before = self@;
        let ticket: u64 = match &self.current {
            Some(entry) => entry.1,
            None => return None,
        };
        match self.take(ticket) {
            Some(mut session) => {
                let offsets: Vec<usize> = session.get_fragment_offsets();
                self.put(ticket, session);
                assert(self@.sessions =~= before.sessions);
                Some(offsets)
            },
            None => None,
        }
    }

    /// Finds the first ticket that no session has.
    fn free_ticket(&self) -> (ticket: u64)
        ensures
            is_first_free(self@.sessions, ticket),
    {
        broadcast use vstd::std_specs::hash::group_hash_axioms;

        let mut ticket: u64 = 0;
        while self.sessions.contains_key(&ticket)
            invariant
                forall|t: u64| t < ticket ==> self.sessions@.contains_key(t),
            decreases u64::MAX - ticket,
        {
            proof {
                assert(forall|t: u64| t <= ticket ==> self.sessions@.dom().contains(t));
                lemma_tickets_below(self.sessions@.dom().remove(ticket), ticket);
            }
            let known: usize = self.sessions.len();
            assert(ticket < known);
            ticket += 1;
        }
        ticket
    }
}

/// What a request for the transcode of the video at `path` does: it finds the session that is
/// there, or starts one and gives up the one that was active.
pub open spec fn looked_up(
    before: ActiveView,
    after: ActiveView,
    path: Seq<char>,
    lookup: Lookup,
) -> bool {
    match lookup {
        Lookup::Found => before.is_for(path) && after == before,
        Lookup::Started { ticket } => {
            &&& !before.is_for(path)
            &&& is_first_free(before.after_cleanup().sessions, ticket)
            &&& after == before.after_start(path, ticket)
        },
    }
}

/// Looks for the session of the video at `path`, and starts one if there is none. A session for
/// another video is given up.
pub fn get_or_start_transcode(active: &mut ActiveTranscode, path: &str) -> (lookup: Lookup)
    requires
        old(active).wf(),
    ensures
        final(active).wf(),
        looked_up(old(active)@, final(active)@, path@, lookup),
{
    if let Some(entry) = &active.current {
        if same_text(entry.0.as_str(), path) {
            return Lookup::Found;
        }
    }
    cleanup_transcode(active);
    let ticket: u64 = active.free_ticket();
    active.put(ticket, TranscodeSession::new());
    active.current = Some((path.to_owned(), ticket));
    Lookup::Started { ticket }
}

/// Gives up the session that is active, if any. The session stays until its task has ended.
pub fn cleanup_transcode(active: &mut ActiveTranscode)
    requires
        old(active).wf(),
    ensures
        final(active).wf(),
        final(active)@ == old(active)@.after_cleanup(),
{
    let ghost before = active@;
    if let Some(entry) = active.current.take() {
        let ticket: u64 = entry.1;
        if let Some(mut session) = active.take(ticket) {
            session.request_abort();
            if !session.complete() {
                active.put(ticket, session);
            }
        }
        assert(active@.sessions =~= before.after_cleanup().sessions);
    }
}

/// A session that is replaced by one for another video is given up with what it has, so that its
/// task stops before it reads again; if its task has ended the session is forgotten.
pub proof fn law_replaced_session_is_given_up(before: ActiveView, path: Seq<char>, ticket: u64)
    requires
        before.in_order(),
        before.current is Some,
        !before.is_for(path),
        is_first_free(before.after_cleanup().sessions, ticket),
    ensures
        ({
            let old_ticket = before.current->0.ticket;
            let after = before.after_start(path, ticket);
            &&& !before.session().complete ==> after.is_given_up(old_ticket)
                && after.sessions[old_ticket] == (SessionView {
                aborted: true,
                ..before.session()
            })
            &&& before.session().complete ==> !after.is_given_up(old_ticket)
        }),
{
}

/// A request for the transcode of a video is followed by no other start for the same video: the
/// second request finds the session of the first.
pub proof fn law_second_request_finds_session(before: ActiveView, path: Seq<char>, ticket: u64)
    ensures
        before.after_start(path, ticket).is_for(path),
        before.after_start(path, ticket).session() == fresh(),
{
}

/// A session starts empty: no bytes, no duration, neither complete nor given up. Until its duration
/// is known it counts as one second, and one that could not be found out counts as none.
pub proof fn law_new_sessions(session: SessionView, duration: Seconds)
    ensures
        fresh().bytes.len() == 0,
        !fresh().complete,
        !fresh().aborted,
        fresh().duration is None,
        session.duration is None ==> duration_or_one(session).bits == 1023 * 0x10_0000_0000_0000,
        session.duration == Some(duration) ==> duration_or_one(session) == duration,
        duration_or_zero(None).bits == 0,
        duration_or_zero(Some(duration)) == duration,
{
}

/// Only a read that brought data brings bytes, and it brings all of them. The task reads on after
/// it; it stops when there is no more, or when reading failed, and after a time-out it kills FFmpeg
/// too.
pub proof fn law_outcomes_of_reads(chunk: Vec<u8>)
    ensures
        read_bytes(ReadOutcome::Data(chunk)) == chunk@,
        read_bytes(ReadOutcome::EndOfStream).len() == 0,
        read_bytes(ReadOutcome::Failed).len() == 0,
        read_bytes(ReadOutcome::TimedOut).len() == 0,
        chunk@.len() > 0 ==> read_action(ReadOutcome::Data(chunk)) == TranscodeAction::Read,
        chunk@.len() == 0 ==> read_action(ReadOutcome::Data(chunk)) == TranscodeAction::Stop,
        read_action(ReadOutcome::EndOfStream) == TranscodeAction::Stop,
        read_action(ReadOutcome::Failed) == TranscodeAction::Stop,
        read_action(ReadOutcome::TimedOut) == TranscodeAction::KillAndStop,
{
}

/// FFmpeg reads the video and writes a fragmented MP4 stream to its standard output. What lies
/// between says whether the streams are copied or encoded.
pub proof fn law_transcode_call(path: Seq<char>, copies: bool)
    ensures
        ({
            let args = transcode_query(path, copies);
            let n = args.len() as int;
            &&& args[0] == "-i"@ && args[1] == path
            &&& args[n - 5] == "-movflags"@
            &&& args[n - 4] == "frag_keyframe+empty_moov+default_base_moof"@
            &&& args[n - 3] == "-f"@ && args[n - 2] == "mp4"@
            &&& args[n - 1] == "pipe:1"@
            &&& copies ==> n == 9 && args[2] == "-c"@ && args[3] == "copy"@
            &&& !copies ==> {
                &&& n == 19
                &&& args[2] == "-c:v"@ && args[3] == "libx264"@
                &&& args[4] == "-preset"@ && args[5] == "ultrafast"@
                &&& args[6] == "-crf"@ && args[7] == "28"@
                &&& args[8] == "-profile:v"@ && args[9] == "baseline"@
                &&& args[10] == "-c:a"@ && args[11] == "aac"@
                &&& args[12] == "-b:a"@ && args[13] == "128k"@
            }
        }),
{
}

/// A clean-up leaves no session active. It gives up the one that was, without touching what it
/// holds, or forgets it if its task has ended; every other session stays as it is.
pub proof fn law_cleanup_gives_up_the_active_session(before: ActiveView, ticket: u64)
    ensures
        before.after_cleanup().current is None,
        before.current is None ==> before.after_cleanup() == before,
        !before.is_current(ticket) ==> {
            &&& before.after_cleanup().sessions.contains_key(ticket)
                <==> before.sessions.contains_key(ticket)
            &&& before.after_cleanup().sessions[ticket] == before.sessions[ticket]
        },
        before.is_current(ticket) ==> {
            let session = before.sessions[ticket];
            let after = before.after_cleanup().sessions;
            &&& session.complete ==> !after.contains_key(ticket)
            &&& !session.complete ==> {
                &&& after.contains_key(ticket)
                &&& after[ticket].aborted
                &&& after[ticket].bytes == session.bytes
                &&& !after[ticket].complete
                &&& after[ticket].duration == session.duration
            }
        },
{
}

/// A start makes an empty session under a ticket that no other session has, and makes it the active
/// one for the video; the sessions that were there are treated as in a clean-up.
pub proof fn law_start_makes_a_fresh_session(
    before: ActiveView,
    path: Seq<char>,
    ticket: u64,
    other: u64,
)
    requires
        is_first_free(before.after_cleanup().sessions, ticket),
    ensures
        ({
            let after = before.after_start(path, ticket);
            &&& !before.after_cleanup().sessions.contains_key(ticket)
            &&& after.is_current(ticket)
            &&& after.current->0.path == path
            &&& after.sessions.contains_key(ticket) && after.sessions[ticket] == fresh()
            &&& other != ticket ==> {
                &&& !after.is_current(other)
                &&& after.sessions.contains_key(other)
                    <==> before.after_cleanup().sessions.contains_key(other)
                &&& after.sessions[other] == before.after_cleanup().sessions[other]
            }
        }),
{
}

/// What a request for a transcode does is decided by the active video alone: the same video finds
/// its session and changes nothing, and any other, or none, starts one.
pub proof fn law_requests_for_transcodes(
    before: ActiveView,
    after: ActiveView,
    path: Seq<char>,
    lookup: Lookup,
)
    requires
        looked_up(before, after, path, lookup),
    ensures
        lookup is Found <==> (before.current matches Some(entry) && entry.path == path),
        lookup is Found ==> after == before,
        lookup matches Lookup::Started { ticket } ==> {
            &&& after.is_current(ticket)
            &&& after.current->0.path == path
            &&& after.sessions[ticket] == fresh()
            &&& !before.after_cleanup().sessions.contains_key(ticket)
        },
        after.is_for(path),
{
}

} // verus!
