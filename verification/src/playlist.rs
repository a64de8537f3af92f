//! The HLS playlist of a video that is being transcoded. Its segments are ranges of bytes of the
//! transcode, which the player asks for one by one. While the transcode runs the playlist only
//! grows (`EVENT`); when it is complete the playlist is final (`VOD`).

use vstd::prelude::*;
use vstd::string::*;
use vstd::utf8::*;

use crate::mp4::{
    fragment_offsets, law_fragments_in_order, law_fragments_stay, positions, BOX_HEADER_LEN,
};
use crate::number::{decimal, decimal_string};
use crate::range::{range_text, RangeHeaderView};
use crate::server::{
    law_transcoded_range_is_served, transcoded_reply, HeadView, ReplyHead, Status,
};

verus! {

/// Whether a byte stands for itself in a URI: an ASCII letter or digit, or one of `-`, `_`, `.`
/// and `/`.
pub open spec fn is_plain_byte(b: u8) -> bool {
    ||| 0x41 <= b <= 0x5a
    ||| 0x61 <= b <= 0x7a
    ||| 0x30 <= b <= 0x39
    ||| b == 0x2d
    ||| b == 0x5f
    ||| b == 0x2e
    ||| b == 0x2f
}

/// The upper-case hexadecimal digit for `d`.
pub open spec fn hex_digit(d: int) -> char {
    if d < 10 {
        ('0' as int + d) as char
    } else {
        ('A' as int + d - 10) as char
    }
}

/// How one byte is written in a URI.
pub open spec fn encoded_byte(b: u8) -> Seq<char> {
    if is_plain_byte(b) {
        seq![b as char]
    } else {
        seq!['%', hex_digit(b as int / 16), hex_digit(b as int % 16)]
    }
}

/// How bytes are written in a URI.
pub open spec fn percent_encoded(bytes: Seq<u8>) -> Seq<char>
    decreases bytes.len(),
{
    if bytes.len() == 0 {
        Seq::empty()
    } else {
        percent_encoded(bytes.drop_last()) + encoded_byte(bytes.last())
    }
}

/// Writes a hexadecimal digit.
fn hex_char(d: u8) -> (c: char)
    requires
        d < 16,
    ensures
        c == hex_digit(d as int),
{
    if d < 10 {
        (48u8 + d) as char
    } else {
        (55u8 + d) as char
    }
}

/// Writes the path of a video so that it can stand in a URI.
pub fn encode_path(path: &str) -> (encoded: String)
    ensures
        encoded@ == percent_encoded(encode_utf8(path@)),
{
    let bytes: &[u8] = path.as_bytes();
    let n: usize = bytes.len();
    let mut encoded: String = String::new();
    for i in 0..n
        invariant
            n == bytes@.len(),
            bytes@ == encode_utf8(path@),
            encoded@ == percent_encoded(bytes@.take(i as int)),
    {
        let b: u8 = bytes[i];
        let ghost before = encoded@;
        assert(bytes@.take(i + 1).drop_last() =~= bytes@.take(i as int));
        if (0x41 <= b && b <= 0x5a) || (0x61 <= b && b <= 0x7a) || (0x30 <= b && b <= 0x39) || b
            == 0x2d || b == 0x5f || b == 0x2e || b == 0x2f {
            encoded.push(b as char);
        } else {
            encoded.push('%');
            encoded.push(hex_char(b / 16));
            encoded.push(hex_char(b % 16));
        }
        assert(encoded@ =~= before + encoded_byte(b));
    }
    assert(bytes@.take(n as int) =~= bytes@);
    encoded
}

/// The number that a hexadecimal digit stands for.
pub open spec fn hex_value(c: char) -> int {
    if '0' <= c <= '9' {
        c as int - '0' as int
    } else {
        c as int - 'A' as int + 10
    }
}

/// The bytes that a text with escapes stands for: `%` and two hexadecimal digits are one byte,
/// any other character is its own code.
pub open spec fn percent_decoded(s: Seq<char>) -> Seq<u8>
    decreases s.len(),
{
    if s.len() == 0 {
        Seq::empty()
    } else if s[0] == '%' && s.len() >= 3 {
        seq![(hex_value(s[1]) * 16 + hex_value(s[2])) as u8] + percent_decoded(s.skip(3))
    } else {
        seq![s[0] as u8] + percent_decoded(s.skip(1))
    }
}

/// A text with escapes is read piece by piece.
proof fn lemma_decode_encoded_then(bytes: Seq<u8>, rest: Seq<char>)
    ensures
        percent_decoded(percent_encoded(bytes) + rest) == bytes + percent_decoded(rest),
    decreases bytes.len(),
{
    if bytes.len() == 0 {
        assert(percent_encoded(bytes) + rest =~= rest);
        assert(bytes + percent_decoded(rest) =~= percent_decoded(rest));
    } else {
        let b = bytes.last();
        let piece = encoded_byte(b);
        let tail = piece + rest;
        lemma_decode_encoded_then(bytes.drop_last(), tail);
        assert(percent_encoded(bytes) + rest =~= percent_encoded(bytes.drop_last()) + tail);
        if is_plain_byte(b) {
            assert(tail.skip(1) =~= rest);
            assert(tail[0] == b as char);
            assert(percent_decoded(tail) == seq![b] + percent_decoded(rest));
        } else {
            assert(tail.skip(3) =~= rest);
            assert(tail[0] == '%' && tail[1] == hex_digit(b as int / 16) && tail[2] == hex_digit(
                b as int % 16,
            ));
            assert(hex_value(tail[1]) == b as int / 16 && hex_value(tail[2]) == b as int % 16);
            assert(percent_decoded(tail) == seq![b] + percent_decoded(rest));
        }
        assert(bytes.drop_last() + (seq![b] + percent_decoded(rest)) =~= bytes + percent_decoded(
            rest,
        ));
    }
}

/// A path that is written in a URI is read back as the same path.
pub proof fn law_encoded_path_is_read_back(path: Seq<char>)
    ensures
        percent_decoded(percent_encoded(encode_utf8(path))) == encode_utf8(path),
        decode_utf8(percent_decoded(percent_encoded(encode_utf8(path)))) == path,
{
    let bytes = encode_utf8(path);
    lemma_decode_encoded_then(bytes, Seq::empty());
    assert(percent_encoded(bytes) + Seq::<char>::empty() =~= percent_encoded(bytes));
    assert(bytes + percent_decoded(Seq::empty()) =~= bytes);
    encode_utf8_decode_utf8(path);
}

/// An encoded path holds only characters that stand for themselves in a URI, and escapes.
pub proof fn law_encoded_path_is_plain(bytes: Seq<u8>)
    ensures
        forall|i: int|
            0 <= i < percent_encoded(bytes).len() ==> {
                let c = #[trigger] percent_encoded(bytes)[i];
                c == '%' || ((c as int) < 128 && is_plain_byte(c as u8))
            },
    decreases bytes.len(),
{
    if bytes.len() > 0 {
        law_encoded_path_is_plain(bytes.drop_last());
        let before = percent_encoded(bytes.drop_last());
        let all = percent_encoded(bytes);
        assert forall|i: int| 0 <= i < all.len() implies {
            let c = #[trigger] all[i];
            c == '%' || ((c as int) < 128 && is_plain_byte(c as u8))
        } by {
            if i < before.len() {
                assert(all[i] == before[i]);
            } else {
                assert(all[i] == encoded_byte(bytes.last())[i - before.len()]);
            }
        }
    }
}

/// How many fragments can be served: while the transcode runs the last one may not be whole.
pub open spec fn servable(found: nat, complete: bool) -> nat {
    if complete || found == 0 {
        found
    } else {
        (found - 1) as nat
    }
}

/// Where a fragment ends: where the next one begins, or at the end of the buffer.
pub open spec fn fragment_end(offsets: Seq<nat>, buf_len: nat, i: int) -> nat {
    if i + 1 < offsets.len() {
        offsets[i + 1]
    } else {
        buf_len
    }
}

/// Whether there is a playlist: there is something before the first fragment, and a fragment that
/// can be served.
pub open spec fn has_playlist(bytes: Seq<u8>, complete: bool) -> bool {
    let offsets = fragment_offsets(bytes);
    offsets.len() > 0 && offsets[0] > 0 && servable(offsets.len(), complete) > 0
}

/// The parts of a transcode that a playlist lists.
#[derive(Debug)]
pub struct PlaylistPlan {
    complete: bool,
    offsets: Vec<usize>,
    buf_len: usize,
}

impl PlaylistPlan {
    /// Where the fragments begin.
    pub closed spec fn starts(&self) -> Seq<nat> {
        positions(self.offsets@)
    }

    /// How many bytes the transcode has produced.
    pub closed spec fn total(&self) -> nat {
        self.buf_len as nat
    }

    /// Whether the transcode is complete.
    pub closed spec fn is_final(&self) -> bool {
        self.complete
    }

    /// There is a first fragment, and fragments come in order.
    pub open spec fn wf(&self) -> bool {
        &&& self.starts().len() > 0
        &&& forall|i: int, j: int|
            0 <= i < j < self.starts().len() ==> self.starts()[i] <= self.starts()[j]
        &&& forall|i: int|
            0 <= i < self.starts().len() ==> #[trigger] self.starts()[i] <= self.total()
    }

    /// Whether the transcode is complete.
    pub fn complete(&self) -> (yes: bool)
        ensures
            yes == self.is_final(),
    {
        self.complete
    }

    /// How many fragments the transcode has so far.
    pub fn fragments(&self) -> (found: usize)
        ensures
            found == self.starts().len(),
    {
        self.offsets.len()
    }
}

/// Decides what the playlist of a transcode lists, given the fragments that its bytes hold. Until
/// there is a fragment to serve the client is told to come back.
pub fn plan_playlist(bytes: &[u8], complete: bool, offsets: Vec<usize>) -> (plan: Result<
    PlaylistPlan,
    Status,
>)
    requires
        positions(offsets@) == fragment_offsets(bytes@),
    ensures
        match plan {
            Ok(p) => {
                &&& has_playlist(bytes@, complete)
                &&& p.wf()
                &&& p.starts() == fragment_offsets(bytes@)
                &&& p.total() == bytes@.len()
                &&& p.is_final() == complete
            },
            Err(status) => status == Status::ServiceUnavailable && !has_playlist(bytes@, complete),
        },
{
    proof {
        law_fragments_in_order(bytes@, 0);
    }
    let found: usize = offsets.len();
    assert(positions(offsets@).len() == found);
    if found == 0 {
        return Err(Status::ServiceUnavailable);
    }
    assert(positions(offsets@)[0] == offsets@[0]);
    if offsets[0] == 0 {
        return Err(Status::ServiceUnavailable);
    }
    if !complete && found == 1 {
        return Err(Status::ServiceUnavailable);
    }
    Ok(PlaylistPlan { complete, offsets, buf_len: bytes.len() })
}

/// How long a fragment is: the number of seconds with six decimals, and rounded up.
#[derive(Debug)]
pub struct FragmentTiming {
    pub seconds: String,
    pub rounded_up: u64,
}

/// How long the fragments are said to be: on average what `average` says, once the transcode is
/// complete. Before that the average would be wrong, so ten seconds is a stand-in.
pub open spec fn stated_seconds(complete: bool, average: FragmentTiming) -> Seq<char> {
    if complete {
        average.seconds@
    } else {
        "10.000000"@
    }
}

/// The target duration of a playlist, which is at least one second.
pub open spec fn target_duration(complete: bool, average: FragmentTiming) -> nat {
    if !complete {
        10
    } else if average.rounded_up >= 1 {
        average.rounded_up as nat
    } else {
        1
    }
}

/// The first lines of a playlist. The map names what comes before the first fragment.
pub open spec fn playlist_head(target: nat, complete: bool, uri: Seq<char>, init_end: nat) -> Seq<
    char,
> {
    "#EXTM3U\n#EXT-X-VERSION:7\n#EXT-X-TARGETDURATION:"@ + decimal(target)
        + "\n#EXT-X-PLAYLIST-TYPE:"@ + (if complete {
        "VOD"@
    } else {
        "EVENT"@
    }) + "\n#EXT-X-MEDIA-SEQUENCE:0\n#EXT-X-MAP:URI=\""@ + uri + "\",BYTERANGE=\""@ + decimal(
        init_end,
    ) + "@0\"\n"@
}

/// The lines of a playlist for one fragment.
pub open spec fn segment_lines(seconds: Seq<char>, uri: Seq<char>, start: nat, len: nat) -> Seq<
    char,
> {
    "#EXTINF:"@ + seconds + ",\n#EXT-X-BYTERANGE:"@ + decimal(len) + "@"@ + decimal(start) + "\n"@
        + uri + "\n"@
}

/// The lines of a playlist for the first `n` fragments.
pub open spec fn segments(
    seconds: Seq<char>,
    uri: Seq<char>,
    offsets: Seq<nat>,
    buf_len: nat,
    n: nat,
) -> Seq<char>
    decreases n,
{
    if n == 0 {
        Seq::empty()
    } else {
        let i = n - 1;
        segments(seconds, uri, offsets, buf_len, i as nat) + segment_lines(
            seconds,
            uri,
            offsets[i],
            (fragment_end(offsets, buf_len, i) - offsets[i]) as nat,
        )
    }
}

/// The URI under which the server serves a video.
pub open spec fn video_uri(path: Seq<char>) -> Seq<char> {
    "/video?path="@ + percent_encoded(encode_utf8(path))
}

/// The playlist of the video at `path`, from where its fragments begin and how long it is so far.
pub open spec fn playlist(
    path: Seq<char>,
    offsets: Seq<nat>,
    buf_len: nat,
    complete: bool,
    average: FragmentTiming,
) -> Seq<char> {
    playlist_head(target_duration(complete, average), complete, video_uri(path), offsets[0])
        + segments(
        stated_seconds(complete, average),
        video_uri(path),
        offsets,
        buf_len,
        servable(offsets.len(), complete),
    ) + (if complete {
        "#EXT-X-ENDLIST\n"@
    } else {
        Seq::empty()
    })
}

/// Writes the first lines of a playlist.
fn write_head(target: u64, complete: bool, uri: &str, init_end: u64) -> (text: String)
    ensures
        text@ == playlist_head(target as nat, complete, uri@, init_end as nat),
{
    let mut text: String = "#EXTM3U\n#EXT-X-VERSION:7\n#EXT-X-TARGETDURATION:".to_owned();
    text.append(decimal_string(target).as_str());
    text.append("\n#EXT-X-PLAYLIST-TYPE:");
    if complete {
        text.append("VOD");
    } else {
        text.append("EVENT");
    }
    text.append("\n#EXT-X-MEDIA-SEQUENCE:0\n#EXT-X-MAP:URI=\"");
    text.append(uri);
    text.append("\",BYTERANGE=\"");
    text.append(decimal_string(init_end).as_str());
    text.append("@0\"\n");
    text
}

/// Writes the lines of a playlist for one fragment.
fn write_segment(seconds: &str, uri: &str, start: u64, len: u64) -> (text: String)
    ensures
        text@ == segment_lines(seconds@, uri@, start as nat, len as nat),
{
    let mut text: String = "#EXTINF:".to_owned();
    text.append(seconds);
    text.append(",\n#EXT-X-BYTERANGE:");
    text.append(decimal_string(len).as_str());
    text.append("@");
    text.append(decimal_string(start).as_str());
    text.append("\n");
    text.append(uri);
    text.append("\n");
    text
}

/// Writes the playlist of the video at `path`.
pub fn write_playlist(path: &str, plan: &PlaylistPlan, average: &FragmentTiming) -> (text: String)
    requires
        plan.wf(),
    ensures
        text@ == playlist(path@, plan.starts(), plan.total(), plan.is_final(), *average),
{
    let encoded: String = encode_path(path);
    let uri: String = "/video?path=".to_owned().concat(encoded.as_str());
    let complete: bool = plan.complete;
    let seconds: &str = if complete {
        average.seconds.as_str()
    } else {
        "10.000000"
    };
    let target: u64 = if !complete {
        10
    } else if average.rounded_up >= 1 {
        average.rounded_up
    } else {
        1
    };
    let ghost starts = plan.starts();
    let ghost total = plan.total();
    let found: usize = plan.offsets.len();
    let count: usize = if complete {
        found
    } else {
        found - 1
    };
    assert(starts[0] == plan.offsets@[0]);
    let mut text: String = write_head(target, complete, uri.as_str(), plan.offsets[0] as u64);
    let ghost head = text@;
    assert(head + segments(seconds@, uri@, starts, total, 0) =~= head);
    for i in 0..count
        invariant
            plan.wf(),
            starts == plan.starts(),
            total == plan.total(),
            found == plan.offsets@.len(),
            found == starts.len(),
            count <= found,
            text@ == head + segments(seconds@, uri@, starts, total, i as nat),
    {
        let start: usize = plan.offsets[i];
        assert(starts[i as int] == start);
        let end: usize = if i + 1 < found {
            plan.offsets[i + 1]
        } else {
            plan.buf_len
        };
        assert(end == fragment_end(starts, total, i as int)) by {
            if i + 1 < found {
                assert(starts[i + 1] == plan.offsets@[i + 1]);
            }
        }
        let lines: String = write_segment(seconds, uri.as_str(), start as u64, (end - start) as u64);
        let ghost before = text@;
        text.append(lines.as_str());
        assert(text@ =~= head + segments(seconds@, uri@, starts, total, (i + 1) as nat));
    }
    if complete {
        text.append("#EXT-X-ENDLIST\n");
    }
    assert(text@ =~= playlist(path@, starts, total, complete, *average));
    text
}

/// Makes the head of a reply with a playlist.
pub fn playlist_reply_head() -> (head: ReplyHead)
    ensures
        head@ == (HeadView {
            status: Status::Success,
            content_type: "application/vnd.apple.mpegurl"@,
            content_length: None,
            content_range: None,
            accept_ranges: false,
            no_cache: true,
        }),
{
    ReplyHead {
        status: Status::Success,
        content_type: "application/vnd.apple.mpegurl",
        content_length: None,
        content_range: None,
        accept_ranges: false,
        no_cache: true,
    }
}

/// The bytes of a fragment.
pub open spec fn fragment(bytes: Seq<u8>, i: int) -> Seq<u8> {
    let offsets = fragment_offsets(bytes);
    bytes.subrange(offsets[i] as int, fragment_end(offsets, bytes.len(), i) as int)
}

/// The first `n` fragments, one after the other.
pub open spec fn fragments(bytes: Seq<u8>, n: nat) -> Seq<u8>
    decreases n,
{
    if n == 0 {
        Seq::empty()
    } else {
        fragments(bytes, (n - 1) as nat) + fragment(bytes, n - 1)
    }
}

/// What the map names and the first fragments, taken together, are the front of the transcode.
proof fn lemma_fragments_tile(bytes: Seq<u8>, n: nat)
    requires
        0 < n <= fragment_offsets(bytes).len(),
    ensures
        bytes.take(fragment_offsets(bytes)[0] as int) + fragments(bytes, n) == bytes.take(
            fragment_end(fragment_offsets(bytes), bytes.len(), n - 1) as int,
        ),
    decreases n,
{
    let offsets = fragment_offsets(bytes);
    let init = bytes.take(offsets[0] as int);
    law_fragments_in_order(bytes, 0);
    let i = n - 1;
    let start = offsets[i] as int;
    let end = fragment_end(offsets, bytes.len(), i) as int;
    assert(start <= end <= bytes.len());
    if n > 1 {
        lemma_fragments_tile(bytes, (n - 1) as nat);
    } else {
        assert(init + fragments(bytes, 0) =~= init);
    }
    assert(init + fragments(bytes, i as nat) == bytes.take(start));
    assert(init + fragments(bytes, n) =~= (init + fragments(bytes, i as nat)) + fragment(bytes, i));
    assert(bytes.take(start) + bytes.subrange(start, end) =~= bytes.take(end));
}

/// A player that gets what the map names and then every segment of the final playlist gets the
/// whole transcode, byte for byte.
pub proof fn law_final_playlist_covers_everything(bytes: Seq<u8>)
    requires
        has_playlist(bytes, true),
    ensures
        bytes.take(fragment_offsets(bytes)[0] as int) + fragments(
            bytes,
            servable(fragment_offsets(bytes).len(), true),
        ) == bytes,
{
    lemma_fragments_tile(bytes, fragment_offsets(bytes).len());
    assert(bytes.take(bytes.len() as int) =~= bytes);
}

/// Every segment of a playlist has at least the header of its first box, and a request for its
/// range of bytes is answered with the fragment.
pub proof fn law_segment_is_served(bytes: Seq<u8>, complete: bool, i: int)
    requires
        bytes.len() <= u64::MAX,
        0 <= i < servable(fragment_offsets(bytes).len(), complete),
    ensures
        fragment(bytes, i).len() >= BOX_HEADER_LEN,
        ({
            let start = fragment_offsets(bytes)[i];
            let end = (fragment_end(fragment_offsets(bytes), bytes.len(), i) - 1) as nat;
            transcoded_reply(bytes, complete, RangeHeaderView::Text(range_text(start, end)))
                matches Ok((head, body)) && body == fragment(bytes, i)
        }),
{
    law_fragments_in_order(bytes, 0);
    let offsets = fragment_offsets(bytes);
    let start = offsets[i];
    let end = (fragment_end(offsets, bytes.len(), i) - 1) as nat;
    law_transcoded_range_is_served(bytes, complete, start, end);
}

/// A segment that is listed while the transcode runs stays in the playlist as it is, however the
/// transcode goes on.
pub proof fn law_listed_segment_stays(bytes: Seq<u8>, more: Seq<u8>, complete: bool, i: int)
    requires
        0 <= i < servable(fragment_offsets(bytes).len(), false),
    ensures
        i < servable(fragment_offsets(bytes + more).len(), complete),
        fragment_offsets(bytes + more)[i] == fragment_offsets(bytes)[i],
        fragment_end(fragment_offsets(bytes + more), (bytes + more).len(), i) == fragment_end(
            fragment_offsets(bytes),
            bytes.len(),
            i,
        ),
        fragment(bytes + more, i) == fragment(bytes, i),
{
    let before = fragment_offsets(bytes);
    let after = fragment_offsets(bytes + more);
    law_fragments_stay(bytes, more, 0);
    law_fragments_in_order(bytes, 0);
    assert(after.take(before.len() as int) =~= before);
    assert(after[i] == before[i]);
    assert(after[i + 1] == before[i + 1]);
    assert(fragment(bytes + more, i) =~= fragment(bytes, i));
}

/// The lines for fragments that are listed while the transcode runs stay as they are.
proof fn lemma_segments_stay(
    seconds: Seq<char>,
    uri: Seq<char>,
    bytes: Seq<u8>,
    more: Seq<u8>,
    n: nat,
)
    requires
        n <= servable(fragment_offsets(bytes).len(), false),
    ensures
        segments(seconds, uri, fragment_offsets(bytes), bytes.len(), n) == segments(
            seconds,
            uri,
            fragment_offsets(bytes + more),
            (bytes + more).len(),
            n,
        ),
    decreases n,
{
    if n > 0 {
        lemma_segments_stay(seconds, uri, bytes, more, (n - 1) as nat);
        law_listed_segment_stays(bytes, more, false, n - 1);
    }
}

/// The lines for some fragments are the front of the lines for more of them.
proof fn lemma_segments_extend(
    seconds: Seq<char>,
    uri: Seq<char>,
    offsets: Seq<nat>,
    buf_len: nat,
    n: nat,
    m: nat,
)
    requires
        n <= m,
    ensures
        segments(seconds, uri, offsets, buf_len, n).is_prefix_of(
            segments(seconds, uri, offsets, buf_len, m),
        ),
    decreases m - n,
{
    if n < m {
        lemma_segments_extend(seconds, uri, offsets, buf_len, n, (m - 1) as nat);
        let front = segments(seconds, uri, offsets, buf_len, n);
        let most = segments(seconds, uri, offsets, buf_len, (m - 1) as nat);
        let all = segments(seconds, uri, offsets, buf_len, m);
        assert(most.is_prefix_of(all));
        assert(all.take(front.len() as int) =~= front);
    }
}

/// While the transcode runs the playlist only grows: what it says stays, and lines are added at
/// its end.
pub proof fn law_running_playlist_grows(
    path: Seq<char>,
    bytes: Seq<u8>,
    more: Seq<u8>,
    average: FragmentTiming,
    later_average: FragmentTiming,
)
    requires
        has_playlist(bytes, false),
    ensures
        has_playlist(bytes + more, false),
        playlist(path, fragment_offsets(bytes), bytes.len(), false, average).is_prefix_of(
            playlist(
                path,
                fragment_offsets(bytes + more),
                (bytes + more).len(),
                false,
                later_average,
            ),
        ),
{
    let seconds = "10.000000"@;
    let uri = video_uri(path);
    let before = fragment_offsets(bytes);
    let after = fragment_offsets(bytes + more);
    let n = servable(before.len(), false);
    let m = servable(after.len(), false);
    law_listed_segment_stays(bytes, more, false, 0);
    law_listed_segment_stays(bytes, more, false, n - 1);
    lemma_segments_stay(seconds, uri, bytes, more, n);
    lemma_segments_extend(seconds, uri, after, (bytes + more).len(), n, m);
    let head = playlist_head(10, false, uri, before[0]);
    let old_lines = segments(seconds, uri, before, bytes.len(), n);
    let new_lines = segments(seconds, uri, after, (bytes + more).len(), m);
    let old_text = playlist(path, before, bytes.len(), false, average);
    let new_text = playlist(path, after, (bytes + more).len(), false, later_average);
    assert(old_text =~= head + old_lines);
    assert(new_text =~= head + new_lines);
    assert(new_text.take(old_text.len() as int) =~= old_text);
}

/// The bytes that stand for themselves in a URI are the ASCII letters and digits, the hyphen, the
/// underscore, the dot and the slash.
pub proof fn law_plain_bytes(b: u8)
    ensures
        is_plain_byte(b) <==> 'A' as int <= b <= 'Z' as int || 'a' as int <= b <= 'z' as int || '0' as int
            <= b <= '9' as int || b == '-' as int || b == '_' as int || b == '.' as int || b == '/' as int,
{
}

/// A plain byte is written as itself, and any other as a percent sign and two upper-case hexadecimal
/// digits. A text is written byte by byte.
pub proof fn law_bytes_are_encoded_one_by_one(bytes: Seq<u8>, b: u8)
    ensures
        percent_encoded(Seq::empty()).len() == 0,
        is_plain_byte(b) ==> percent_encoded(bytes.push(b)) == percent_encoded(bytes).push(b as char),
        !is_plain_byte(b) ==> percent_encoded(bytes.push(b)) == percent_encoded(bytes) + seq![
            '%',
            "0123456789ABCDEF"@[b as int / 16],
            "0123456789ABCDEF"@[b as int % 16],
        ],
{
    assert(bytes.push(b).drop_last() =~= bytes);
    assert(percent_encoded(bytes.push(b)) == percent_encoded(bytes) + encoded_byte(b));
    if is_plain_byte(b) {
        assert(percent_encoded(bytes.push(b)) =~= percent_encoded(bytes).push(b as char));
    } else {
        lemma_hex_digits(b as int / 16);
        lemma_hex_digits(b as int % 16);
    }
}

/// Hexadecimal digits in order.
proof fn lemma_hex_digits(d: int)
    requires
        0 <= d < 16,
    ensures
        hex_digit(d) == "0123456789ABCDEF"@[d],
{
    reveal_strlit("0123456789ABCDEF");
    let hex = "0123456789ABCDEF"@;
    assert(hex[0] == '0' && hex[1] == '1' && hex[2] == '2' && hex[3] == '3' && hex[4] == '4' && hex[5]
        == '5' && hex[6] == '6' && hex[7] == '7' && hex[8] == '8' && hex[9] == '9' && hex[10] == 'A'
        && hex[11] == 'B' && hex[12] == 'C' && hex[13] == 'D' && hex[14] == 'E' && hex[15] == 'F');
}

/// There is a playlist exactly if the first fragment is behind something, and it is the last one
/// only in a complete transcode. All fragments of a complete transcode are listed, and all but the
/// last one of a transcode that runs.
pub proof fn law_what_a_playlist_lists(bytes: Seq<u8>, complete: bool)
    ensures
        ({
            let offsets = fragment_offsets(bytes);
            let found = offsets.len();
            &&& has_playlist(bytes, complete) <==> found >= 1 && offsets[0] >= 1 && (complete || found
                >= 2)
            &&& servable(found, true) == found
            &&& found >= 1 ==> servable(found, false) == found - 1
        }),
{
}

/// A fragment ends where the next one begins, and the last one at the end of the transcode.
pub proof fn law_fragments_end_where_the_next_begin(offsets: Seq<nat>, buf_len: nat, i: int)
    requires
        0 <= i < offsets.len(),
    ensures
        i < offsets.len() - 1 ==> fragment_end(offsets, buf_len, i) == offsets[i + 1],
        i == offsets.len() - 1 ==> fragment_end(offsets, buf_len, i) == buf_len,
{
}

/// While a transcode runs its fragments are said to take ten seconds. When it is complete they are
/// said to take the average, and the target is the average rounded up, but one second at least.
pub proof fn law_stated_durations(average: FragmentTiming)
    ensures
        stated_seconds(true, average) == average.seconds@,
        stated_seconds(false, average) == seq!['1', '0', '.', '0', '0', '0', '0', '0', '0'],
        target_duration(false, average) == 10,
        average.rounded_up == 0 ==> target_duration(true, average) == 1,
        average.rounded_up > 0 ==> target_duration(true, average) == average.rounded_up,
{
    reveal_strlit("10.000000");
    assert("10.000000"@ =~= seq!['1', '0', '.', '0', '0', '0', '0', '0', '0']);
}

/// A video is asked for by its path, encoded, in the query of one address.
pub proof fn law_address_of_a_video(path: Seq<char>)
    ensures
        video_uri(path) == "/video"@ + "?path="@ + percent_encoded(encode_utf8(path)),
{
    reveal_strlit("/video?path=");
    reveal_strlit("/video");
    reveal_strlit("?path=");
    assert("/video"@ + "?path="@ =~= "/video?path="@);
    assert(video_uri(path) =~= "/video"@ + "?path="@ + percent_encoded(encode_utf8(path)));
}

/// A playlist begins with its mark and its version, the target duration, its type, the number of
/// its first segment, and the map, each on a line of its own. The type is final for a complete
/// transcode, and the map names the bytes before the first fragment.
pub proof fn law_head_of_a_playlist(target: nat, complete: bool, uri: Seq<char>, init_end: nat)
    ensures
        playlist_head(target, complete, uri, init_end) == "#EXTM3U\n"@ + "#EXT-X-VERSION:7\n"@ + (
        "#EXT-X-TARGETDURATION:"@ + decimal(target) + "\n"@) + ("#EXT-X-PLAYLIST-TYPE:"@ + (
        if complete {
            "VOD"@
        } else {
            "EVENT"@
        }) + "\n"@) + "#EXT-X-MEDIA-SEQUENCE:0\n"@ + ("#EXT-X-MAP:URI=\""@ + uri + "\",BYTERANGE=\""@
            + decimal(init_end) + "@0\"\n"@),
{
    reveal_strlit("#EXTM3U\n");
    reveal_strlit("#EXT-X-VERSION:7\n");
    reveal_strlit("#EXT-X-TARGETDURATION:");
    reveal_strlit("\n");
    reveal_strlit("#EXT-X-PLAYLIST-TYPE:");
    reveal_strlit("#EXT-X-MEDIA-SEQUENCE:0\n");
    reveal_strlit("#EXT-X-MAP:URI=\"");
    reveal_strlit("#EXTM3U\n#EXT-X-VERSION:7\n#EXT-X-TARGETDURATION:");
    reveal_strlit("\n#EXT-X-PLAYLIST-TYPE:");
    reveal_strlit("\n#EXT-X-MEDIA-SEQUENCE:0\n#EXT-X-MAP:URI=\"");
    assert("#EXTM3U\n#EXT-X-VERSION:7\n#EXT-X-TARGETDURATION:"@ =~= "#EXTM3U\n"@
        + "#EXT-X-VERSION:7\n"@ + "#EXT-X-TARGETDURATION:"@);
    assert("\n#EXT-X-PLAYLIST-TYPE:"@ =~= "\n"@ + "#EXT-X-PLAYLIST-TYPE:"@);
    assert("\n#EXT-X-MEDIA-SEQUENCE:0\n#EXT-X-MAP:URI=\""@ =~= "\n"@ + "#EXT-X-MEDIA-SEQUENCE:0\n"@
        + "#EXT-X-MAP:URI=\""@);
    let kind = if complete {
        "VOD"@
    } else {
        "EVENT"@
    };
    assert(playlist_head(target, complete, uri, init_end) =~= "#EXTM3U\n"@ + "#EXT-X-VERSION:7\n"@ + (
    "#EXT-X-TARGETDURATION:"@ + decimal(target) + "\n"@) + ("#EXT-X-PLAYLIST-TYPE:"@ + kind + "\n"@)
        + "#EXT-X-MEDIA-SEQUENCE:0\n"@ + ("#EXT-X-MAP:URI=\""@ + uri + "\",BYTERANGE=\""@ + decimal(
        init_end,
    ) + "@0\"\n"@));
}

/// The segments of a playlist are the fragments in order, none left out: each with its duration, its
/// length and its place in the transcode, and the address of the video.
pub proof fn law_segments_are_the_fragments(
    seconds: Seq<char>,
    uri: Seq<char>,
    offsets: Seq<nat>,
    buf_len: nat,
    n: nat,
)
    ensures
        segments(seconds, uri, offsets, buf_len, n) == Seq::new(
            n,
            |i: int|
                ("#EXTINF:"@ + seconds + ",\n"@) + ("#EXT-X-BYTERANGE:"@ + decimal(
                    (fragment_end(offsets, buf_len, i) - offsets[i]) as nat,
                ) + "@"@ + decimal(offsets[i]) + "\n"@) + (uri + "\n"@),
        ).flatten_alt(),
    decreases n,
{
    let line = |i: int|
        ("#EXTINF:"@ + seconds + ",\n"@) + ("#EXT-X-BYTERANGE:"@ + decimal(
            (fragment_end(offsets, buf_len, i) - offsets[i]) as nat,
        ) + "@"@ + decimal(offsets[i]) + "\n"@) + (uri + "\n"@);
    let lines = Seq::new(n, line);
    if n == 0 {
        assert(lines.flatten_alt() =~= Seq::empty());
    } else {
        let i = n - 1;
        law_segments_are_the_fragments(seconds, uri, offsets, buf_len, i as nat);
        assert(lines.drop_last() =~= Seq::new(i as nat, line));
        reveal_strlit(",\n#EXT-X-BYTERANGE:");
        reveal_strlit(",\n");
        reveal_strlit("#EXT-X-BYTERANGE:");
        assert(",\n#EXT-X-BYTERANGE:"@ =~= ",\n"@ + "#EXT-X-BYTERANGE:"@);
        let len = (fragment_end(offsets, buf_len, i) - offsets[i]) as nat;
        assert(segment_lines(seconds, uri, offsets[i], len) =~= line(i));
    }
}

/// A playlist is its head, its segments and, for a complete transcode, the mark of its end.
pub proof fn law_parts_of_a_playlist(
    path: Seq<char>,
    offsets: Seq<nat>,
    buf_len: nat,
    complete: bool,
    average: FragmentTiming,
)
    ensures
        ({
            let uri = video_uri(path);
            let head = playlist_head(
                target_duration(complete, average),
                complete,
                uri,
                offsets[0],
            );
            let seconds = stated_seconds(complete, average);
            let text = playlist(path, offsets, buf_len, complete, average);
            &&& complete ==> text == head + segments(seconds, uri, offsets, buf_len, offsets.len())
                + "#EXT-X-ENDLIST\n"@
            &&& !complete && offsets.len() > 0 ==> text == head + segments(
                seconds,
                uri,
                offsets,
                buf_len,
                (offsets.len() - 1) as nat,
            )
        }),
{
    if !complete && offsets.len() > 0 {
        let text = playlist(path, offsets, buf_len, complete, average);
        assert(text =~= playlist_head(10, complete, video_uri(path), offsets[0]) + segments(
            stated_seconds(complete, average),
            video_uri(path),
            offsets,
            buf_len,
            (offsets.len() - 1) as nat,
        ));
    }
}

/// The bytes of a fragment are those of the transcode from its beginning to its end, and fragments
/// are taken together in order.
pub proof fn law_bytes_of_fragments(bytes: Seq<u8>, n: nat)
    requires
        n < fragment_offsets(bytes).len(),
    ensures
        fragment(bytes, n as int) == bytes.subrange(
            fragment_offsets(bytes)[n as int] as int,
            if n + 1 < fragment_offsets(bytes).len() {
                fragment_offsets(bytes)[n as int + 1] as int
            } else {
                bytes.len() as int
            },
        ),
        fragments(bytes, 0).len() == 0,
        fragments(bytes, n + 1) == fragments(bytes, n) + fragment(bytes, n as int),
{
}

} // verus!
