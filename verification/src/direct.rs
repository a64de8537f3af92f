//! Serving a video from its file: what is read for a request, and the reply that is made of it.

use vstd::prelude::*;

use crate::number::decimal;
use crate::range::{
    is_empty_suffix, law_open_range_is_read, law_range_is_inside, law_written_range_is_read, parse_range,
    range_text, requested_range, RangeHeader, RangeHeaderView,
};
use crate::rules::{content_type_for, media_type};
use crate::server::{content_range_text, part_head, whole_head, ReplyHead, Status};

verus! {

/// The most bytes of a file that one reply holds: 4 MB.
pub const MAX_CHUNK_SIZE: u64 = 4_194_304;

/// What is read from a file for a reply.
#[derive(Debug, Clone, Copy, PartialEq, Eq, Structural)]
pub enum DirectRead {
    /// All of it.
    Whole,
    /// At most `len` bytes from `start` on.
    Chunk { start: u64, len: u64 },
}

/// What is read from a file of `size` bytes for a request: all of it, or the range that was asked
/// for, cut to the most that one reply holds.
pub open spec fn direct_read(range: RangeHeaderView, size: int) -> Result<DirectRead, Status> {
    match range {
        RangeHeaderView::Absent => Ok(DirectRead::Whole),
        RangeHeaderView::Unreadable => Err(Status::BadRequest),
        RangeHeaderView::Text(text) => match requested_range(text, size) {
            Some((start, end)) => Ok(
                DirectRead::Chunk {
                    start: start as u64,
                    len: (if end + 1 - start < MAX_CHUNK_SIZE {
                        end + 1 - start
                    } else {
                        MAX_CHUNK_SIZE as int
                    }) as u64,
                },
            ),
            None => Err(Status::RangeNotSatisfiable),
        },
    }
}

/// Decides what is read from a file of `file_size` bytes.
pub fn plan_direct(range: &RangeHeader, file_size: u64) -> (plan: Result<DirectRead, Status>)
    requires
        file_size > 0 || !(range@ matches RangeHeaderView::Text(text) && is_empty_suffix(text)),
    ensures
        plan == direct_read(range@, file_size as int),
        plan matches Ok(DirectRead::Chunk { start, len }) ==> start + len <= file_size,
{
    match range {
        RangeHeader::Absent => Ok(DirectRead::Whole),
        RangeHeader::Unreadable => Err(Status::BadRequest),
        RangeHeader::Text(text) => {
            proof {
                law_range_is_inside(text@, file_size as int);
            }
            match parse_range(text.as_str(), file_size) {
                Some((start, end)) => {
                    let asked: u64 = end + 1 - start;
                    let len: u64 = if asked < MAX_CHUNK_SIZE {
                        asked
                    } else {
                        MAX_CHUNK_SIZE
                    };
                    Ok(DirectRead::Chunk { start, len })
                },
                None => Err(Status::RangeNotSatisfiable),
            }
        },
    }
}

/// What came of reading from a file.
#[derive(Debug)]
pub enum FileRead {
    Data(Vec<u8>),
    EndOfFile,
    Failed,
}

/// What is done next for a reply with part of a file.
#[derive(Debug, Clone, Copy, PartialEq, Eq, Structural)]
pub enum ChunkAction {
    /// Read at most so many bytes.
    Read { at_most: u64 },
    /// Send what has been read.
    Reply,
    /// Give up.
    Refuse { status: Status },
}

/// Part of a file that is being read for a reply.
pub struct ChunkTransfer {
    start: u64,
    len: u64,
    body: Vec<u8>,
}

/// Part of a file that is being read, with its bytes as a sequence.
#[verifier::ext_equal]
pub struct ChunkView {
    /// Where in the file the part begins.
    pub start: int,
    /// How many bytes are wanted.
    pub len: int,
    /// The bytes that have been read.
    pub bytes: Seq<u8>,
}

impl View for ChunkTransfer {
    type V = ChunkView;

    closed spec fn view(&self) -> ChunkView {
        ChunkView { start: self.start as int, len: self.len as int, bytes: self.body@ }
    }
}

impl ChunkView {
    /// The part ends inside the largest file, and no more has been read than was wanted.
    pub open spec fn wf(self) -> bool {
        &&& 0 <= self.start
        &&& self.start + self.len <= u64::MAX
        &&& self.bytes.len() <= self.len
    }

    /// Whether the bytes that have been read are those of the file, from the start of the part on.
    pub open spec fn is_part_of(self, file: Seq<u8>) -> bool {
        self.start + self.bytes.len() <= file.len() && self.bytes == file.subrange(
            self.start,
            self.start + self.bytes.len(),
        )
    }

    /// What is done with the bytes that have been read: the rest is read until nothing is missing.
    pub open spec fn next(self) -> ChunkAction {
        if self.bytes.len() < self.len {
            ChunkAction::Read { at_most: (self.len - self.bytes.len()) as u64 }
        } else {
            ChunkAction::Reply
        }
    }

    /// The part after a read.
    pub open spec fn after(self, read: FileRead) -> ChunkView {
        match read {
            FileRead::Data(bytes) => ChunkView { bytes: self.bytes + bytes@, ..self },
            _ => self,
        }
    }

    /// What is done after a read. A file that ends early is served as far as it goes.
    pub open spec fn action_after(self, read: FileRead) -> ChunkAction {
        match read {
            FileRead::Data(bytes) => if bytes@.len() == 0 {
                ChunkAction::Reply
            } else {
                self.after(read).next()
            },
            FileRead::EndOfFile => ChunkAction::Reply,
            FileRead::Failed => ChunkAction::Refuse { status: Status::InternalServerError },
        }
    }
}

impl ChunkTransfer {
    /// Begins to read `len` bytes from `start` on.
    pub fn new(start: u64, len: u64) -> (transfer: ChunkTransfer)
        requires
            start + len <= u64::MAX,
        ensures
            transfer@ == (ChunkView { start: start as int, len: len as int, bytes: Seq::empty() }),
            transfer@.wf(),
    {
        ChunkTransfer { start, len, body: Vec::new() }
    }

    /// Decides whether more has to be read.
    pub fn next(&self) -> (action: ChunkAction)
        requires
            self@.wf(),
        ensures
            action == self@.next(),
    {
        let have: u64 = self.body.len() as u64;
        if have < self.len {
            ChunkAction::Read { at_most: self.len - have }
        } else {
            ChunkAction::Reply
        }
    }

    /// Takes in what came of a read, of at most as many bytes as were asked for, and decides what
    /// is done next.
    pub fn after_read(&mut self, read: FileRead) -> (action: ChunkAction)
        requires
            old(self)@.wf(),
            old(self)@.after(read).wf(),
        ensures
            final(self)@ == old(self)@.after(read),
            action == old(self)@.action_after(read),
    {
        match &read {
            FileRead::Data(bytes) => {
                let before: Ghost<Seq<u8>> = Ghost(self.body@);
                self.body.extend_from_slice(bytes.as_slice());
                assert(self.body@ =~= before@ + bytes@);
                if bytes.len() == 0 {
                    ChunkAction::Reply
                } else {
                    self.next()
                }
            },
            FileRead::EndOfFile => ChunkAction::Reply,
            FileRead::Failed => ChunkAction::Refuse { status: Status::InternalServerError },
        }
    }

    /// Whether there is a byte to name as the last one of the reply: one that has been read, or one
    /// before the part. At the very start of a file from which nothing could be read there is none.
    pub fn has_last_byte(&self) -> (yes: bool)
        ensures
            yes == (self@.start + self@.bytes.len() >= 1),
    {
        self.start > 0 || self.body.len() > 0
    }

    /// Makes the reply with what has been read of a file with the given extension and size.
    pub fn reply(self, ext: &str, file_size: u64) -> (reply: (ReplyHead, Vec<u8>))
        requires
            self@.wf(),
            self@.start + self@.bytes.len() >= 1,
        ensures
            reply.0@ == part_head(
                media_type(ext@),
                self@.start,
                self@.start + self@.bytes.len() - 1,
                Some(file_size as int),
            ),
            reply.1@ == self@.bytes,
            reply.0@.content_length == Some(reply.1@.len() as int),
    {
        let read: u64 = self.body.len() as u64;
        let head: ReplyHead = ReplyHead {
            status: Status::PartialContent,
            content_type: content_type_for(ext),
            content_length: Some(read),
            content_range: Some(
                content_range_text(self.start, self.start + read - 1, Some(file_size)),
            ),
            accept_ranges: true,
            no_cache: false,
        };
        (head, self.body)
    }
}

/// Makes the head of a reply with a whole file.
pub fn direct_whole_head(ext: &str, file_size: u64) -> (head: ReplyHead)
    ensures
        head@ == whole_head(media_type(ext@), file_size as int),
{
    ReplyHead {
        status: Status::Success,
        content_type: content_type_for(ext),
        content_length: Some(file_size),
        content_range: None,
        accept_ranges: true,
        no_cache: false,
    }
}

/// A chunk of a file begins where the range does and lies in it. It is all of the range, or as
/// much as one reply holds, and is empty only if the range asked for nothing.
pub proof fn law_chunk_is_in_range(text: Seq<char>, size: int)
    requires
        0 < size <= u64::MAX,
    ensures
        direct_read(RangeHeaderView::Text(text), size) matches Ok(plan) ==> {
            &&& requested_range(text, size) matches Some((first, last)) && (plan
                matches DirectRead::Chunk { start, len } && {
                &&& start == first
                &&& start + len <= last + 1
                &&& len <= MAX_CHUNK_SIZE
                &&& start + len == last + 1 || len == MAX_CHUNK_SIZE
                &&& len == 0 ==> is_empty_suffix(text)
            })
        },
{
    law_range_is_inside(text, size);
}

/// As long as each read brings the next bytes of the file, what has been read is part of the file;
/// once nothing is missing it is the whole part that was wanted.
pub proof fn law_transfer_follows_file(file: Seq<u8>, chunk: ChunkView, bytes: Vec<u8>)
    requires
        chunk.wf(),
        chunk.is_part_of(file),
        chunk.bytes.len() + bytes@.len() <= chunk.len,
        chunk.start + chunk.bytes.len() + bytes@.len() <= file.len(),
        bytes@ == file.subrange(
            chunk.start + chunk.bytes.len(),
            chunk.start + chunk.bytes.len() + bytes@.len(),
        ),
    ensures
        chunk.after(FileRead::Data(bytes)).wf(),
        chunk.after(FileRead::Data(bytes)).is_part_of(file),
        chunk.after(FileRead::Data(bytes)).next() is Reply ==> chunk.after(
            FileRead::Data(bytes),
        ).bytes == file.subrange(chunk.start, chunk.start + chunk.len),
{
    let after = chunk.after(FileRead::Data(bytes));
    assert(after.bytes =~= file.subrange(after.start, after.start + after.bytes.len()));
}

/// Without a range the whole file is read, and a range that cannot be read or satisfied is refused
/// as such.
pub proof fn law_what_is_read_of_a_file(text: Seq<char>, size: int)
    ensures
        direct_read(RangeHeaderView::Absent, size) == Ok::<DirectRead, Status>(DirectRead::Whole),
        direct_read(RangeHeaderView::Unreadable, size) == Err::<DirectRead, Status>(
            Status::BadRequest,
        ),
        requested_range(text, size) is None ==> direct_read(RangeHeaderView::Text(text), size) == Err::<
            DirectRead,
            Status,
        >(Status::RangeNotSatisfiable),
        requested_range(text, size) is Some ==> direct_read(RangeHeaderView::Text(text), size) is Ok,
{
}

/// A request for everything from a byte of the file on, such as a player sends first, is answered
/// from that byte on, with all that is left or 4 MB of it.
pub proof fn law_open_range_of_a_file(start: nat, size: int)
    requires
        start < size <= u64::MAX,
    ensures
        direct_read(RangeHeaderView::Text("bytes="@ + decimal(start) + "-"@), size) == Ok::<
            DirectRead,
            Status,
        >(
            DirectRead::Chunk {
                start: start as u64,
                len: (if size - start < 4 * 1024 * 1024 {
                    size - start
                } else {
                    4_194_304int
                }) as u64,
            },
        ),
{
    law_open_range_is_read(start, size);
}

/// A request for given bytes of the file is answered from the first of them on, with all of them
/// or 4 MB.
pub proof fn law_closed_range_of_a_file(start: nat, end: nat, size: int)
    requires
        start <= end < size <= u64::MAX,
    ensures
        direct_read(RangeHeaderView::Text(range_text(start, end)), size) == Ok::<DirectRead, Status>(
            DirectRead::Chunk {
                start: start as u64,
                len: (if end + 1 - start < 4 * 1024 * 1024 {
                    end + 1 - start
                } else {
                    4_194_304int
                }) as u64,
            },
        ),
{
    law_written_range_is_read(start, end, size);
}

/// As long as bytes are missing they are asked for, no more and no fewer, and then the reply is
/// sent. What a read brings is added at the end. The end of the file ends the reply early, and an
/// error refuses it; neither changes what was read.
pub proof fn law_transfer_goes_on_until_nothing_is_missing(chunk: ChunkView, bytes: Vec<u8>)
    requires
        chunk.wf(),
        chunk.bytes.len() + bytes@.len() <= chunk.len,
    ensures
        ({
            let missing = chunk.len - chunk.bytes.len();
            let after = chunk.after(FileRead::Data(bytes));
            &&& missing > 0 ==> (chunk.next() matches ChunkAction::Read { at_most } && at_most
                == missing)
            &&& missing == 0 ==> chunk.next() == ChunkAction::Reply
            &&& after.start == chunk.start && after.len == chunk.len
            &&& after.bytes == chunk.bytes + bytes@
            &&& chunk.after(FileRead::EndOfFile) == chunk
            &&& chunk.after(FileRead::Failed) == chunk
            &&& chunk.action_after(FileRead::EndOfFile) == ChunkAction::Reply
            &&& chunk.action_after(FileRead::Failed) == (ChunkAction::Refuse {
                status: Status::InternalServerError,
            })
            &&& bytes@.len() == 0 || bytes@.len() == missing ==> chunk.action_after(
                FileRead::Data(bytes),
            ) == ChunkAction::Reply
            &&& 0 < bytes@.len() < missing ==> (chunk.action_after(FileRead::Data(bytes))
                matches ChunkAction::Read { at_most } && at_most == missing - bytes@.len())
        }),
{
}

} // verus!
