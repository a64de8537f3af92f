//! The requests of the media server: for a video, and for the playlist of one that is transcoded.

use vstd::prelude::*;

use crate::mp4::fragment_offsets;
use crate::paths::HostPath;
use crate::playlist::{has_playlist, plan_playlist, PlaylistPlan};
use crate::probe::Seconds;
use crate::range::RangeHeader;
use crate::registry::MediaPaths;
use crate::rules::lowers_ascii_extension;
use crate::server::{
    check_playlist, extension_or_empty, playlist_refusal, reply_view, route_for, serve_transcoded,
    transcoded_reply, video_route, ReplyHead, Status, VideoRoute,
};
use crate::transcode::{
    cleanup_transcode, duration_or_one, get_or_start_transcode, looked_up, ActiveTranscode, Lookup, SessionView,
};

verus! {

/// The answer to a request for a video.
pub enum VideoAnswer {
    /// The file is served, which has the given extension. The transcode that was active has been
    /// given up.
    Direct { ext: String },
    /// The video is transcoded, and this is the reply from what there is.
    Transcoded { lookup: Lookup, reply: Result<(ReplyHead, Vec<u8>), Status> },
}

/// Answers a request for the video at a path.
pub fn serve_video(
    paths: &MediaPaths,
    active: &mut ActiveTranscode,
    path: &HostPath,
    range: &RangeHeader,
) -> (answer: Result<VideoAnswer, Status>)
    requires
        old(active).wf(),
    ensures
        final(active).wf(),
        lowers_ascii_extension(path@),
        match route_for(paths@.contains(path@.text), extension_or_empty(path@)) {
            Err(refusal) => {
                &&& answer matches Err(status) && status == refusal
                &&& final(active)@ == old(active)@
            },
            Ok(Some(served)) => answer matches Ok(VideoAnswer::Direct { ext }) && {
                &&& ext@ == served
                &&& final(active)@ == old(active)@.after_cleanup()
            },
            Ok(None) => answer matches Ok(VideoAnswer::Transcoded { lookup, reply }) && {
                &&& looked_up(old(active)@, final(active)@, path@.text, lookup)
                &&& reply_view(reply) == transcoded_reply(
                    final(active)@.session().bytes,
                    final(active)@.session().complete,
                    range@,
                )
            },
        },
{
    match video_route(paths, path) {
        Err(status) => Err(status),
        Ok(VideoRoute::Direct { ext }) => {
            cleanup_transcode(active);
            Ok(VideoAnswer::Direct { ext })
        },
        Ok(VideoRoute::Transcoded) => {
            let lookup: Lookup = get_or_start_transcode(active, path.text.as_str());
            let reply: Result<(ReplyHead, Vec<u8>), Status> = match active.current() {
                Some(session) => serve_transcoded(session, range),
                None => Err(Status::ServiceUnavailable),
            };
            Ok(VideoAnswer::Transcoded { lookup, reply })
        },
    }
}

/// The answer to a request for a playlist.
pub struct PlaylistAnswer {
    pub lookup: Lookup,
    /// What the playlist lists, or that the client should come back.
    pub plan: Result<PlaylistPlan, Status>,
    /// The duration of the video, from which the average length of a fragment follows.
    pub duration: Seconds,
}

/// What the playlist of a session lists.
pub open spec fn plans(session: SessionView, plan: Result<PlaylistPlan, Status>) -> bool {
    match plan {
        Ok(p) => {
            &&& has_playlist(session.bytes, session.complete)
            &&& p.wf()
            &&& p.starts() == fragment_offsets(session.bytes)
            &&& p.total() == session.bytes.len()
            &&& p.is_final() == session.complete
        },
        Err(status) => {
            &&& status == Status::ServiceUnavailable
            &&& !has_playlist(session.bytes, session.complete)
        },
    }
}

/// Answers a request for the playlist of the video at a path.
pub fn serve_hls_playlist(
    paths: &MediaPaths,
    active: &mut ActiveTranscode,
    path: &HostPath,
) -> (answer: Result<PlaylistAnswer, Status>)
    requires
        old(active).wf(),
    ensures
        final(active).wf(),
        lowers_ascii_extension(path@),
        match playlist_refusal(paths@.contains(path@.text), extension_or_empty(path@)) {
            Some(refusal) => {
                &&& answer matches Err(status) && status == refusal
                &&& final(active)@ == old(active)@
            },
            None => answer matches Ok(a) && {
                &&& looked_up(old(active)@, final(active)@, path@.text, a.lookup)
                &&& plans(final(active)@.session(), a.plan)
                &&& a.duration == duration_or_one(final(active)@.session())
            },
        },
{
    if let Err(status) = check_playlist(paths, path) {
        return Err(status);
    }
    let lookup: Lookup = get_or_start_transcode(active, path.text.as_str());
    let offsets: Option<Vec<usize>> = active.get_fragment_offsets();
    match (active.current(), offsets) {
        (Some(session), Some(found)) => {
            let plan: Result<PlaylistPlan, Status> = plan_playlist(
                session.buffer(),
                session.complete(),
                found,
            );
            let duration: Seconds = session.get_duration();
            Ok(PlaylistAnswer { lookup, plan, duration })
        },
        _ => Err(Status::ServiceUnavailable),
    }
}

/// A session has a plan exactly if there is a playlist for what it holds, which is then planned for
/// all of it; otherwise the client is told to come back.
pub proof fn law_plans_are_for_what_is_there(session: SessionView, plan: Result<PlaylistPlan, Status>)
    requires
        plans(session, plan),
    ensures
        plan is Ok <==> has_playlist(session.bytes, session.complete),
        plan matches Ok(p) ==> {
            &&& p.starts() == fragment_offsets(session.bytes)
            &&& p.total() == session.bytes.len()
            &&& p.is_final() == session.complete
        },
        plan matches Err(status) ==> status == Status::ServiceUnavailable,
{
}

} // verus!
