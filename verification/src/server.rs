//! What the media server answers: which videos it serves and how, and the head and the body of
//! each reply.

use vstd::prelude::*;
use vstd::slice::slice_subrange;
use vstd::string::*;

use crate::error::joined;
use crate::number::{decimal, decimal_string};
use crate::paths::{HostPath, PathView};
use crate::probe::has_unplayable_extension;
use crate::range::{
    law_open_range_is_read, law_range_is_inside, law_written_range_is_read, parse_range, range_text, requested_range, RangeHeader,
    RangeHeaderView,
};
use crate::registry::{is_path_registered, MediaPaths};
use crate::rules::{
    file_extension, is_unplayable, is_video_extension, law_accepted_extensions,
    law_unplayable_extensions, lower_extension, lowers_ascii_extension, needs_transcode,
    validate_extension, video_failure,
};
use crate::text::lowercase;
use crate::transcode::TranscodeSession;

verus! {

/// The outcomes that a reply can have.
#[derive(Debug, Clone, Copy, PartialEq, Eq, Structural)]
pub enum Status {
    Success,
    PartialContent,
    BadRequest,
    Forbidden,
    NotFound,
    RangeNotSatisfiable,
    InternalServerError,
    ServiceUnavailable,
}

/// The HTTP status code of an outcome.
pub open spec fn status_code(status: Status) -> u16 {
    match status {
        Status::Success => 200,
        Status::PartialContent => 206,
        Status::BadRequest => 400,
        Status::Forbidden => 403,
        Status::NotFound => 404,
        Status::RangeNotSatisfiable => 416,
        Status::InternalServerError => 500,
        Status::ServiceUnavailable => 503,
    }
}

impl Status {
    /// The HTTP status code.
    pub fn code(&self) -> (code: u16)
        ensures
            code == status_code(*self),
    {
        match self {
            Status::Success => 200,
            Status::PartialContent => 206,
            Status::BadRequest => 400,
            Status::Forbidden => 403,
            Status::NotFound => 404,
            Status::RangeNotSatisfiable => 416,
            Status::InternalServerError => 500,
            Status::ServiceUnavailable => 503,
        }
    }
}

/// The head of a reply.
#[derive(Debug)]
pub struct ReplyHead {
    pub status: Status,
    pub content_type: &'static str,
    pub content_length: Option<u64>,
    pub content_range: Option<String>,
    /// Whether the reply says that ranges of bytes can be asked for.
    pub accept_ranges: bool,
    /// Whether the reply says that it is not to be cached.
    pub no_cache: bool,
}

/// The head of a reply with its texts as sequences of characters.
#[verifier::ext_equal]
pub struct HeadView {
    pub status: Status,
    pub content_type: Seq<char>,
    pub content_length: Option<int>,
    pub content_range: Option<Seq<char>>,
    pub accept_ranges: bool,
    pub no_cache: bool,
}

impl View for ReplyHead {
    type V = HeadView;

    open spec fn view(&self) -> HeadView {
        HeadView {
            status: self.status,
            content_type: self.content_type@,
            content_length: match self.content_length {
                Some(n) => Some(n as int),
                None => None,
            },
            content_range: match self.content_range {
                Some(r) => Some(r@),
                None => None,
            },
            accept_ranges: self.accept_ranges,
            no_cache: self.no_cache,
        }
    }
}

/// How a video is served.
#[derive(Debug)]
pub enum VideoRoute {
    /// From the buffer of its transcode.
    Transcoded,
    /// From the file, which has the given extension.
    Direct { ext: String },
}

/// How a video with the given extension, in lower case, is served.
pub open spec fn route_for(registered: bool, ext: Seq<char>) -> Result<Option<Seq<char>>, Status> {
    if !registered || !is_video_extension(ext) {
        Err(Status::Forbidden)
    } else if is_unplayable(ext) {
        Ok(None)
    } else {
        Ok(Some(ext))
    }
}

/// The extension of a route that serves a file, and `None` for a transcode.
pub open spec fn route_view(route: Result<VideoRoute, Status>) -> Result<
    Option<Seq<char>>,
    Status,
> {
    match route {
        Ok(VideoRoute::Transcoded) => Ok(None),
        Ok(VideoRoute::Direct { ext }) => Ok(Some(ext@)),
        Err(status) => Err(status),
    }
}

/// Decides how a video with the given extension, in lower case, is served.
pub fn choose_route(registered: bool, ext: &str) -> (route: Result<VideoRoute, Status>)
    ensures
        route_view(route) == route_for(registered, ext@),
{
    if !registered {
        return Err(Status::Forbidden);
    }
    if !validate_extension(ext) {
        return Err(Status::Forbidden);
    }
    if needs_transcode(ext) {
        return Ok(VideoRoute::Transcoded);
    }
    Ok(VideoRoute::Direct { ext: ext.to_owned() })
}

/// The extension of a path in lower case, and the empty text when there is none.
pub open spec fn extension_or_empty(path: PathView) -> Seq<char> {
    match lower_extension(path) {
        Some(ext) => ext,
        None => Seq::empty(),
    }
}

/// Finds the extension of a path in lower case.
fn extension_text(path: &HostPath) -> (ext: String)
    ensures
        ext@ == extension_or_empty(path@),
        lowers_ascii_extension(path@),
{
    match file_extension(path) {
        Some(e) => e,
        None => String::new(),
    }
}

/// Decides how the video at a path is served: only if the path was registered.
pub fn video_route(paths: &MediaPaths, path: &HostPath) -> (route: Result<VideoRoute, Status>)
    ensures
        route_view(route) == route_for(paths@.contains(path@.text), extension_or_empty(path@)),
        lowers_ascii_extension(path@),
{
    let ext: String = extension_text(path);
    choose_route(is_path_registered(paths, path.text.as_str()), ext.as_str())
}

/// What stops a playlist from being served for a video with the given extension.
pub open spec fn playlist_refusal(registered: bool, ext: Seq<char>) -> Option<Status> {
    if !registered {
        Some(Status::Forbidden)
    } else if !is_unplayable(ext) {
        Some(Status::NotFound)
    } else {
        None
    }
}

/// Decides whether a video with the given extension, in lower case, has a playlist.
pub fn refuse_playlist(registered: bool, ext: &str) -> (refusal: Option<Status>)
    ensures
        refusal == playlist_refusal(registered, ext@),
{
    if !registered {
        Some(Status::Forbidden)
    } else if !needs_transcode(ext) {
        Some(Status::NotFound)
    } else {
        None
    }
}

/// Decides whether the video at a path has a playlist: only if the path was registered and the
/// video is transcoded.
pub fn check_playlist(paths: &MediaPaths, path: &HostPath) -> (result: Result<(), Status>)
    ensures
        result == match playlist_refusal(paths@.contains(path@.text), extension_or_empty(path@)) {
            Some(status) => Err(status),
            None => Ok::<(), Status>(()),
        },
        lowers_ascii_extension(path@),
{
    let ext: String = extension_text(path);
    match refuse_playlist(is_path_registered(paths, path.text.as_str()), ext.as_str()) {
        Some(status) => Err(status),
        None => Ok(()),
    }
}

/// The text of a `Content-Range` header; a total that is not known yet is a `*`.
pub open spec fn content_range(start: int, end: int, total: Option<int>) -> Seq<char> {
    "bytes "@ + decimal(start as nat) + "-"@ + decimal(end as nat) + "/"@ + match total {
        Some(n) => decimal(n as nat),
        None => "*"@,
    }
}

/// Writes a `Content-Range` header.
pub(crate) fn content_range_text(start: u64, end: u64, total: Option<u64>) -> (text: String)
    ensures
        text@ == content_range(
            start as int,
            end as int,
            match total {
                Some(n) => Some(n as int),
                None => None,
            },
        ),
{
    let mut text: String = joined("bytes ", decimal_string(start).as_str());
    text.append("-");
    text.append(decimal_string(end).as_str());
    text.append("/");
    match total {
        Some(n) => text.append(decimal_string(n).as_str()),
        None => text.append("*"),
    }
    text
}

/// The head of a reply with part of a video.
pub open spec fn part_head(
    content_type: Seq<char>,
    start: int,
    end: int,
    total: Option<int>,
) -> HeadView {
    HeadView {
        status: Status::PartialContent,
        content_type,
        content_length: Some(end + 1 - start),
        content_range: Some(content_range(start, end, total)),
        accept_ranges: true,
        no_cache: false,
    }
}

/// The head of a reply with a whole video.
pub open spec fn whole_head(content_type: Seq<char>, length: int) -> HeadView {
    HeadView {
        status: Status::Success,
        content_type,
        content_length: Some(length),
        content_range: None,
        accept_ranges: true,
        no_cache: false,
    }
}

/// The reply to a request for a video that is being transcoded, from the bytes that are there. A
/// request with a range gets that range as soon as there are bytes; one without a range has to
/// wait until the transcode is complete.
pub open spec fn transcoded_reply(
    bytes: Seq<u8>,
    complete: bool,
    range: RangeHeaderView,
) -> Result<(HeadView, Seq<u8>), Status> {
    let total = bytes.len() as int;
    if !(range is Absent) && total > 0 {
        match range {
            RangeHeaderView::Text(text) => match requested_range(text, total) {
                Some((start, end)) => Ok(
                    (
                        part_head(
                            "video/mp4"@,
                            start,
                            end,
                            if complete {
                                Some(total)
                            } else {
                                None
                            },
                        ),
                        bytes.subrange(start, end + 1),
                    ),
                ),
                None => Err(Status::RangeNotSatisfiable),
            },
            _ => Err(Status::BadRequest),
        }
    } else if complete && total > 0 {
        Ok((whole_head("video/mp4"@, total), bytes))
    } else {
        Err(Status::ServiceUnavailable)
    }
}

/// A reply with its texts and bytes as sequences.
pub open spec fn reply_view(reply: Result<(ReplyHead, Vec<u8>), Status>) -> Result<
    (HeadView, Seq<u8>),
    Status,
> {
    match reply {
        Ok((head, body)) => Ok((head@, body@)),
        Err(status) => Err(status),
    }
}

/// Copies the bytes from `from` up to `to`.
fn copy_bytes(bytes: &[u8], from: usize, to: usize) -> (copy: Vec<u8>)
    requires
        from <= to <= bytes@.len(),
    ensures
        copy@ == bytes@.subrange(from as int, to as int),
{
    let mut copy: Vec<u8> = Vec::new();
    copy.extend_from_slice(slice_subrange(bytes, from, to));
    assert(copy@ =~= bytes@.subrange(from as int, to as int));
    copy
}

/// Answers a request for a video that is being transcoded.
pub fn serve_transcoded(session: &TranscodeSession, range: &RangeHeader) -> (reply: Result<
    (ReplyHead, Vec<u8>),
    Status,
>)
    ensures
        reply_view(reply) == transcoded_reply(session@.bytes, session@.complete, range@),
{
    let bytes: &[u8] = session.buffer();
    let complete: bool = session.complete();
    let len: usize = bytes.len();
    let total: u64 = len as u64;
    if len > 0 {
        match range {
            RangeHeader::Absent => {},
            RangeHeader::Unreadable => return Err(Status::BadRequest),
            RangeHeader::Text(text) => {
                proof {
                    law_range_is_inside(text@, total as int);
                }
                return match parse_range(text.as_str(), total) {
                    Some((start, end)) => {
                        let known: Option<u64> = if complete {
                            Some(total)
                        } else {
                            None
                        };
                        let body: Vec<u8> = copy_bytes(bytes, start as usize, end as usize + 1);
                        let head: ReplyHead = ReplyHead {
                            status: Status::PartialContent,
                            content_type: "video/mp4",
                            content_length: Some(end + 1 - start),
                            content_range: Some(content_range_text(start, end, known)),
                            accept_ranges: true,
                            no_cache: false,
                        };
                        Ok((head, body))
                    },
                    None => Err(Status::RangeNotSatisfiable),
                };
            },
        }
        if complete {
            let body: Vec<u8> = copy_bytes(bytes, 0, len);
            assert(body@ =~= bytes@);
            let head: ReplyHead = ReplyHead {
                status: Status::Success,
                content_type: "video/mp4",
                content_length: Some(total),
                content_range: None,
                accept_ranges: true,
                no_cache: false,
            };
            return Ok((head, body));
        }
    }
    Err(Status::ServiceUnavailable)
}

/// A range of bytes of a transcode that is asked for in the usual way is answered with those
/// bytes, complete or not.
pub proof fn law_transcoded_range_is_served(bytes: Seq<u8>, complete: bool, start: nat, end: nat)
    requires
        start <= end < bytes.len() <= u64::MAX,
    ensures
        transcoded_reply(bytes, complete, RangeHeaderView::Text(range_text(start, end)))
            matches Ok((head, body)) && {
            &&& head.status == Status::PartialContent
            &&& head.content_length == Some(end + 1 - start)
            &&& body == bytes.subrange(start as int, end as int + 1)
        },
{
    law_written_range_is_read(start, end, bytes.len() as int);
}

/// The length that a reply announces for a transcode is the length of its body.
pub proof fn law_announced_length_is_sent(bytes: Seq<u8>, complete: bool, range: RangeHeaderView)
    requires
        bytes.len() <= u64::MAX,
    ensures
        transcoded_reply(bytes, complete, range) matches Ok((head, body)) ==> head.content_length
            == Some(body.len() as int),
{
    if let RangeHeaderView::Text(text) = range {
        law_range_is_inside(text, bytes.len() as int);
    }
}

/// A path that was not registered is refused, for the video and for its playlist, whatever its
/// extension.
pub proof fn law_unregistered_path_is_refused(ext: Seq<char>)
    ensures
        route_for(false, ext) == Err::<Option<Seq<char>>, Status>(Status::Forbidden),
        playlist_refusal(false, ext) == Some(Status::Forbidden),
{
}

/// A video that exists and passes the check of its path is served once its path is registered.
pub proof fn law_valid_video_is_served(path: PathView)
    requires
        video_failure(path.text, true, lower_extension(path)) is None,
    ensures
        route_for(true, extension_or_empty(path)) is Ok,
{
}

/// A registered video has a playlist exactly if it needs transcoding, and then it is served from
/// its transcode.
pub proof fn law_transcoded_videos_have_playlists(path: PathView)
    ensures
        playlist_refusal(true, extension_or_empty(path)) is None <==> has_unplayable_extension(
            lower_extension(path),
        ),
        playlist_refusal(true, extension_or_empty(path)) is None <==> route_for(
            true,
            extension_or_empty(path),
        ) == Ok::<Option<Seq<char>>, Status>(None),
{
}

/// The codes of the outcomes are those of HTTP: success in the two hundreds, errors of the client
/// in the four hundreds, and errors of the server in the five hundreds.
pub proof fn law_status_codes()
    ensures
        status_code(Status::Success) == 200,
        status_code(Status::PartialContent) == 206,
        status_code(Status::BadRequest) == 400,
        status_code(Status::Forbidden) == 403,
        status_code(Status::NotFound) == 404,
        status_code(Status::RangeNotSatisfiable) == 416,
        status_code(Status::InternalServerError) == 500,
        status_code(Status::ServiceUnavailable) == 503,
{
}

/// A registered video is served from its transcode if it is an AVI or Matroska file, and from its
/// file if it has another extension that is accepted; everything else is forbidden.
pub proof fn law_routes(registered: bool, ext: Seq<char>)
    ensures
        ({
            let route = route_for(registered, ext);
            let transcoded = ext == seq!['a', 'v', 'i'] || ext == seq!['m', 'k', 'v'];
            let direct = ext == seq!['m', 'p', '4'] || ext == seq!['m', 'o', 'v'] || ext == seq![
                'w',
                'e',
                'b',
                'm',
            ];
            &&& registered && transcoded ==> route == Ok::<Option<Seq<char>>, Status>(None)
            &&& registered && direct ==> route == Ok::<Option<Seq<char>>, Status>(Some(ext))
            &&& !registered || !(transcoded || direct) ==> route == Err::<Option<Seq<char>>, Status>(
                Status::Forbidden,
            )
        }),
{
    law_accepted_extensions(ext);
    law_unplayable_extensions(ext);
    assert(seq!['m', 'p', '4'][2] == '4' && seq!['m', 'o', 'v'][1] == 'o' && seq!['w', 'e', 'b', 'm'].len()
        == 4);
    assert(seq!['a', 'v', 'i'][0] == 'a' && seq!['m', 'k', 'v'][1] == 'k' && seq!['m', 'p', '4'][1]
        == 'p');
}

/// A playlist is refused to a path that was not registered, and is not found for a registered video
/// that is not transcoded.
pub proof fn law_playlist_refusals(registered: bool, ext: Seq<char>)
    ensures
        ({
            let transcoded = ext == seq!['a', 'v', 'i'] || ext == seq!['m', 'k', 'v'];
            &&& !registered ==> playlist_refusal(registered, ext) == Some(Status::Forbidden)
            &&& registered && !transcoded ==> playlist_refusal(registered, ext) == Some(
                Status::NotFound,
            )
            &&& registered && transcoded ==> playlist_refusal(registered, ext) is None
        }),
{
    law_unplayable_extensions(ext);
}

/// The extension by which a path is served is its own in lower case, and empty if it has none.
pub proof fn law_served_extension(path: PathView)
    ensures
        path.extension matches Some(ext) ==> extension_or_empty(path) == lowercase(ext),
        path.extension is None ==> extension_or_empty(path).len() == 0,
{
}

/// A part of a video is announced by the numbers of its first and last byte and the total, if that
/// is known.
pub proof fn law_content_range(start: nat, end: nat, total: nat)
    ensures
        content_range(start as int, end as int, Some(total as int)) == seq!['b', 'y', 't', 'e', 's', ' ']
            + decimal(start) + seq!['-'] + decimal(end) + seq!['/'] + decimal(total),
        content_range(start as int, end as int, None) == seq!['b', 'y', 't', 'e', 's', ' '] + decimal(
            start,
        ) + seq!['-'] + decimal(end) + seq!['/', '*'],
{
    reveal_strlit("bytes ");
    reveal_strlit("-");
    reveal_strlit("/");
    reveal_strlit("*");
    assert("bytes "@ =~= seq!['b', 'y', 't', 'e', 's', ' ']);
    assert("-"@ =~= seq!['-']);
    assert("/"@ =~= seq!['/']);
    assert(content_range(start as int, end as int, None) =~= seq!['b', 'y', 't', 'e', 's', ' ']
        + decimal(start) + seq!['-'] + decimal(end) + seq!['/', '*']);
}

/// The heads of replies say what is sent: a part with its length and its place in the whole, or the
/// whole with its length. Both offer ranges of bytes, and neither forbids that it is kept.
pub proof fn law_heads(content_type: Seq<char>, start: int, end: int, total: Option<int>, length: int)
    ensures
        ({
            let part = part_head(content_type, start, end, total);
            let whole = whole_head(content_type, length);
            &&& part.status == Status::PartialContent && whole.status == Status::Success
            &&& part.content_type == content_type && whole.content_type == content_type
            &&& part.content_length == Some(end - start + 1) && whole.content_length == Some(length)
            &&& part.content_range == Some(content_range(start, end, total))
            &&& whole.content_range is None
            &&& part.accept_ranges && whole.accept_ranges
            &&& !part.no_cache && !whole.no_cache
        }),
{
}

/// As long as a transcode has no bytes every request has to wait. Once it has some, a range is
/// answered with the bytes it asks for, as MP4, with the total if that is known by then; a range
/// that cannot be satisfied or read is refused as such; and without a range the whole is sent if it
/// is complete, and has to be waited for if it is not.
pub proof fn law_replies_from_a_transcode(bytes: Seq<u8>, complete: bool, text: Seq<char>)
    requires
        bytes.len() <= u64::MAX,
    ensures
        ({
            let total = bytes.len() as int;
            let with_range = transcoded_reply(bytes, complete, RangeHeaderView::Text(text));
            let unreadable = transcoded_reply(bytes, complete, RangeHeaderView::Unreadable);
            let without = transcoded_reply(bytes, complete, RangeHeaderView::Absent);
            let wait = Err::<(HeadView, Seq<u8>), Status>(Status::ServiceUnavailable);
            &&& total == 0 ==> with_range == wait && unreadable == wait && without == wait
            &&& total > 0 ==> {
                &&& unreadable == Err::<(HeadView, Seq<u8>), Status>(Status::BadRequest)
                &&& !complete ==> without == wait
                &&& complete ==> without == Ok::<(HeadView, Seq<u8>), Status>(
                    (whole_head("video/mp4"@, total), bytes),
                )
                &&& requested_range(text, total) is None ==> with_range == Err::<
                    (HeadView, Seq<u8>),
                    Status,
                >(Status::RangeNotSatisfiable)
                &&& requested_range(text, total) matches Some((a, b)) ==> (with_range matches Ok(
                    (head, body),
                ) && {
                    &&& head == part_head(
                        "video/mp4"@,
                        a,
                        b,
                        if complete {
                            Some(total)
                        } else {
                            None
                        },
                    )
                    &&& body.len() == b - a + 1
                    &&& forall|i: int| 0 <= i < body.len() ==> #[trigger] body[i] == bytes[a + i]
                })
            }
        }),
{
    law_range_is_inside(text, bytes.len() as int);
}

/// A request for everything from a byte of a transcode on is answered with all bytes from there on.
pub proof fn law_transcoded_tail_is_served(bytes: Seq<u8>, complete: bool, start: nat)
    requires
        start < bytes.len() <= u64::MAX,
    ensures
        transcoded_reply(
            bytes,
            complete,
            RangeHeaderView::Text("bytes="@ + decimal(start) + "-"@),
        ) matches Ok((head, body)) && head.status == Status::PartialContent && body == bytes.skip(
            start as int,
        ),
{
    law_open_range_is_read(start, bytes.len() as int);
    assert(bytes.subrange(start as int, bytes.len() as int) =~= bytes.skip(start as int));
}

/// A reply is its head and its body, or the status with which it is refused; a route is the
/// extension of the file that is served, or none for a transcode.
pub proof fn law_replies_are_what_they_hold(head: ReplyHead, body: Vec<u8>, status: Status, ext: String)
    ensures
        reply_view(Ok((head, body))) == Ok::<(HeadView, Seq<u8>), Status>((head@, body@)),
        reply_view(Err(status)) == Err::<(HeadView, Seq<u8>), Status>(status),
        head@.status == head.status,
        head@.content_type == head.content_type@,
        head.content_length matches Some(n) ==> head@.content_length == Some(n as int),
        head.content_length is None ==> head@.content_length is None,
        head.content_range matches Some(r) ==> head@.content_range == Some(r@),
        head.content_range is None ==> head@.content_range is None,
        head@.accept_ranges == head.accept_ranges,
        head@.no_cache == head.no_cache,
        route_view(Ok(VideoRoute::Transcoded)) == Ok::<Option<Seq<char>>, Status>(None),
        route_view(Ok(VideoRoute::Direct { ext })) == Ok::<Option<Seq<char>>, Status>(Some(ext@)),
        route_view(Err(status)) == Err::<Option<Seq<char>>, Status>(status),
{
}

} // verus!
