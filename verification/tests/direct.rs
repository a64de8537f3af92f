use audio_snip::direct::{
    direct_whole_head, plan_direct, ChunkAction, ChunkTransfer, DirectRead, FileRead, MAX_CHUNK_SIZE,
};
use audio_snip::range::RangeHeader;
use audio_snip::server::Status;

fn text(s: &str) -> RangeHeader {
    RangeHeader::Text(s.to_string())
}

#[test]
fn files_are_read_in_chunks() {
    assert_eq!(plan_direct(&RangeHeader::Absent, 10), Ok(DirectRead::Whole));
    assert_eq!(plan_direct(&RangeHeader::Unreadable, 10), Err(Status::BadRequest));
    assert_eq!(plan_direct(&text("bytes=10-"), 10), Err(Status::RangeNotSatisfiable));
    assert_eq!(plan_direct(&text("bytes=2-4"), 10), Ok(DirectRead::Chunk { start: 2, len: 3 }));
    assert_eq!(plan_direct(&text("bytes=-0"), 10), Ok(DirectRead::Chunk { start: 10, len: 0 }));
    assert_eq!(plan_direct(&text("bytes=0-"), 0), Err(Status::RangeNotSatisfiable));
    let size = 3 * MAX_CHUNK_SIZE;
    assert_eq!(plan_direct(&text("bytes=5-"), size), Ok(DirectRead::Chunk { start: 5, len: 4 * 1024 * 1024 }));
    assert_eq!(
        plan_direct(&text("bytes=0-4194303"), size),
        Ok(DirectRead::Chunk { start: 0, len: MAX_CHUNK_SIZE })
    );
    let last = u64::MAX - 1;
    assert_eq!(
        plan_direct(&text(&format!("bytes={last}-")), u64::MAX),
        Ok(DirectRead::Chunk { start: last, len: 1 })
    );
}

#[test]
fn chunk_is_read_until_nothing_is_missing() {
    let mut transfer = ChunkTransfer::new(5, 10);
    assert_eq!(transfer.next(), ChunkAction::Read { at_most: 10 });
    assert_eq!(transfer.after_read(FileRead::Data(b"0123".to_vec())), ChunkAction::Read { at_most: 6 });
    assert_eq!(transfer.after_read(FileRead::Data(b"456789".to_vec())), ChunkAction::Reply);
    let (head, body) = transfer.reply("mov", 100);
    assert_eq!(body, b"0123456789");
    assert_eq!(head.status, Status::PartialContent);
    assert_eq!(head.content_type, "video/quicktime");
    assert_eq!(head.content_length, Some(10));
    assert_eq!(head.content_range.unwrap(), "bytes 5-14/100");
    assert!(head.accept_ranges);
    assert!(!head.no_cache);
}

#[test]
fn file_that_ends_early_is_served_as_far_as_it_goes() {
    for end in [FileRead::EndOfFile, FileRead::Data(Vec::new())] {
        let mut transfer = ChunkTransfer::new(5, 10);
        transfer.after_read(FileRead::Data(b"01".to_vec()));
        assert_eq!(transfer.after_read(end), ChunkAction::Reply);
        let (head, body) = transfer.reply("mp4", 15);
        assert_eq!(body, b"01");
        assert_eq!(head.content_length, Some(2));
        assert_eq!(head.content_range.unwrap(), "bytes 5-6/15");
    }
}

#[test]
fn nothing_at_the_start_of_a_file_has_no_last_byte() {
    let mut transfer = ChunkTransfer::new(0, 10);
    assert!(!transfer.has_last_byte());
    transfer.after_read(FileRead::Data(b"0".to_vec()));
    assert!(transfer.has_last_byte());
}

#[test]
fn unreadable_file_is_an_error() {
    let mut transfer = ChunkTransfer::new(0, 10);
    assert_eq!(
        transfer.after_read(FileRead::Failed),
        ChunkAction::Refuse { status: Status::InternalServerError }
    );
}

#[test]
fn empty_chunk_is_not_read() {
    let transfer = ChunkTransfer::new(10, 0);
    assert_eq!(transfer.next(), ChunkAction::Reply);
    assert!(transfer.has_last_byte());
    let (head, body) = transfer.reply("mp4", 10);
    assert!(body.is_empty());
    assert_eq!(head.content_length, Some(0));
    assert_eq!(head.content_range.unwrap(), "bytes 10-9/10");
}

/// Reads in pieces of any size, a range is answered with its bytes.
#[test]
fn range_of_a_file_is_its_bytes() {
    let file: Vec<u8> = (0..100u8).collect();
    let plan = plan_direct(&text("bytes=20-69"), 100).unwrap();
    let DirectRead::Chunk { start, len } = plan else {
        panic!("expected a chunk");
    };
    for size in [1u64, 7, 50, 64] {
        let mut transfer = ChunkTransfer::new(start, len);
        let mut at = start as usize;
        let mut action = transfer.next();
        while let ChunkAction::Read { at_most } = action {
            let n = at_most.min(size) as usize;
            action = transfer.after_read(FileRead::Data(file[at..at + n].to_vec()));
            at += n;
        }
        assert_eq!(action, ChunkAction::Reply);
        let (_, body) = transfer.reply("mp4", 100);
        assert_eq!(body, &file[20..70]);
    }
}

#[test]
fn heads_of_files() {
    let head = direct_whole_head("webm", 100);
    assert_eq!(head.status, Status::Success);
    assert_eq!(head.content_type, "video/webm");
    assert_eq!(head.content_length, Some(100));
    assert!(head.content_range.is_none());
    assert!(head.accept_ranges);
}
