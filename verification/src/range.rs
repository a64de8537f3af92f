//! The `Range` header of a request: one range of bytes, of the forms `bytes=first-last`,
//! `bytes=first-` and `bytes=-length`.

use vstd::prelude::*;
use vstd::string::*;

use crate::number::{
    bounded_value, decimal, is_digit, law_decimal_reads_back, parse_u64, unsigned_value,
};
use crate::text::{after_prefix, strip_prefix, to_chars};

verus! {

/// Whether a byte may stand in a header that is read as text: visible ASCII, space or tab.
pub open spec fn is_header_byte(b: u8) -> bool {
    32 <= b < 127 || b == 9
}

/// Whether a header can be read as text.
pub open spec fn is_header_text(raw: Seq<u8>) -> bool {
    forall|i: int| 0 <= i < raw.len() ==> is_header_byte(#[trigger] raw[i])
}

/// The characters that ASCII bytes stand for.
pub open spec fn ascii_text(raw: Seq<u8>) -> Seq<char> {
    raw.map_values(|b: u8| b as char)
}

/// Calls `HeaderValue::to_str` of axum's `http` on the header value with the given bytes, which
/// `HeaderValue::from_bytes` makes. It yields the text when all bytes are visible ASCII, space
/// or tab, and fails otherwise.
#[verifier::external_body]
fn header_text(raw: &[u8]) -> (text: Option<String>)
    ensures
        match text {
            Some(t) => is_header_text(raw@) && t@ == ascii_text(raw@),
            None => !is_header_text(raw@),
        },
{
    match axum::http::HeaderValue::from_bytes(raw) {
        Ok(value) => match value.to_str() {
            Ok(text) => Some(text.to_string()),
            Err(_) => None,
        },
        Err(_) => None,
    }
}

/// A `Range` header: missing, not text, or some text.
#[derive(Debug)]
pub enum RangeHeader {
    Absent,
    Unreadable,
    Text(String),
}

/// A `Range` header with its text as a sequence of characters.
pub enum RangeHeaderView {
    Absent,
    Unreadable,
    Text(Seq<char>),
}

impl View for RangeHeader {
    type V = RangeHeaderView;

    open spec fn view(&self) -> RangeHeaderView {
        match self {
            RangeHeader::Absent => RangeHeaderView::Absent,
            RangeHeader::Unreadable => RangeHeaderView::Unreadable,
            RangeHeader::Text(t) => RangeHeaderView::Text(t@),
        }
    }
}

/// Reads the bytes of a `Range` header.
pub fn read_range_header(raw: Option<&[u8]>) -> (header: RangeHeader)
    ensures
        header@ == match raw {
            None => RangeHeaderView::Absent,
            Some(bytes) => if is_header_text(bytes@) {
                RangeHeaderView::Text(ascii_text(bytes@))
            } else {
                RangeHeaderView::Unreadable
            },
        },
{
    match raw {
        None => RangeHeader::Absent,
        Some(bytes) => match header_text(bytes) {
            Some(text) => RangeHeader::Text(text),
            None => RangeHeader::Unreadable,
        },
    }
}

/// Where `c` is for the first time at or after `from`.
pub open spec fn first_index(s: Seq<char>, c: char, from: int) -> Option<int>
    decreases s.len() - from,
{
    if from >= s.len() {
        None
    } else if s[from] == c {
        Some(from)
    } else {
        first_index(s, c, from + 1)
    }
}

/// The two sides of the hyphen in a range of bytes.
pub open spec fn range_sides(range: Seq<char>) -> Option<(Seq<char>, Seq<char>)> {
    match after_prefix(range, "bytes="@) {
        Some(rest) => match first_index(rest, '-', 0) {
            Some(dash) => Some((rest.take(dash), rest.skip(dash + 1))),
            None => None,
        },
        None => None,
    }
}

/// A number of 64 bits.
pub open spec fn wide_value(s: Seq<char>) -> Option<nat> {
    bounded_value(s, u64::MAX as nat)
}

/// Whether a range asks for the last 0 bytes.
pub open spec fn is_empty_suffix(range: Seq<char>) -> bool {
    match range_sides(range) {
        Some((first, last)) => first.len() == 0 && wide_value(last) == Some(0nat),
        None => false,
    }
}

/// The first and the last byte that a range asks for of `size` bytes. A range that ends behind
/// the last byte is cut; one that begins there, runs backwards or is longer than the whole from
/// its end has no answer.
pub open spec fn requested_range(range: Seq<char>, size: int) -> Option<(int, int)> {
    match range_sides(range) {
        None => None,
        Some((first, last)) => if first.len() == 0 {
            match wide_value(last) {
                Some(length) => if length <= size {
                    Some((size - length, size - 1))
                } else {
                    None
                },
                None => None,
            }
        } else if last.len() == 0 {
            match wide_value(first) {
                Some(start) => if start < size {
                    Some((start as int, size - 1))
                } else {
                    None
                },
                None => None,
            }
        } else {
            match (wide_value(first), wide_value(last)) {
                (Some(start), Some(end)) => if start <= end && start < size {
                    Some(
                        (
                            start as int,
                            if end < size {
                                end as int
                            } else {
                                size - 1
                            },
                        ),
                    )
                } else {
                    None
                },
                _ => None,
            }
        },
    }
}

/// Splits a range of bytes at its hyphen.
fn split_range(range: &str) -> (sides: Option<(Vec<char>, Vec<char>)>)
    ensures
        match sides {
            Some((first, last)) => range_sides(range@) == Some((first@, last@)),
            None => range_sides(range@) is None,
        },
{
    let rest: String = match strip_prefix(range, "bytes=") {
        Some(r) => r,
        None => return None,
    };
    let chars: Vec<char> = to_chars(rest.as_str());
    let n: usize = chars.len();
    let mut dash: usize = 0;
    while dash < n && chars[dash] != '-'
        invariant
            chars@ == rest@,
            n == chars@.len(),
            dash <= n,
            first_index(rest@, '-', dash as int) == first_index(rest@, '-', 0),
        decreases n - dash,
    {
        dash += 1;
    }
    if dash == n {
        return None;
    }
    let mut first: Vec<char> = Vec::new();
    for i in 0..dash
        invariant
            chars@ == rest@,
            dash < chars@.len(),
            first@ =~= rest@.take(i as int),
    {
        first.push(chars[i]);
    }
    let mut last: Vec<char> = Vec::new();
    for i in dash + 1..n
        invariant
            chars@ == rest@,
            n == chars@.len(),
            dash < n,
            last@ =~= rest@.subrange(dash + 1, i as int),
    {
        last.push(chars[i]);
    }
    assert(last@ =~= rest@.skip(dash + 1));
    Some((first, last))
}

/// Tests whether a range asks for the last 0 bytes.
pub fn asks_for_nothing(range: &str) -> (yes: bool)
    ensures
        yes == is_empty_suffix(range@),
{
    match split_range(range) {
        Some((first, last)) => {
            if first.len() > 0 {
                return false;
            }
            match parse_u64(last.as_slice()) {
                Some(length) => length == 0,
                None => false,
            }
        },
        None => false,
    }
}

/// Reads a range of bytes of a file: the first and the last byte. The last 0 bytes of an empty
/// file have neither.
pub fn parse_range(range: &str, file_size: u64) -> (bounds: Option<(u64, u64)>)
    requires
        file_size > 0 || !is_empty_suffix(range@),
    ensures
        match bounds {
            Some((start, end)) => requested_range(range@, file_size as int) == Some(
                (start as int, end as int),
            ),
            None => requested_range(range@, file_size as int) is None,
        },
{
    let (first, last) = match split_range(range) {
        Some(sides) => sides,
        None => return None,
    };
    if first.len() == 0 {
        match parse_u64(last.as_slice()) {
            Some(length) => if length <= file_size {
                Some((file_size - length, file_size - 1))
            } else {
                None
            },
            None => None,
        }
    } else if last.len() == 0 {
        match parse_u64(first.as_slice()) {
            Some(start) => if start < file_size {
                Some((start, file_size - 1))
            } else {
                None
            },
            None => None,
        }
    } else {
        let start: u64 = match parse_u64(first.as_slice()) {
            Some(v) => v,
            None => return None,
        };
        let end: u64 = match parse_u64(last.as_slice()) {
            Some(v) => v,
            None => return None,
        };
        if start <= end && start < file_size {
            if end < file_size {
                Some((start, end))
            } else {
                Some((start, file_size - 1))
            }
        } else {
            None
        }
    }
}

/// A range that is answered lies in the file, and holds at least one byte unless it asked for none.
pub proof fn law_range_is_inside(range: Seq<char>, size: int)
    requires
        0 <= size <= u64::MAX,
    ensures
        requested_range(range, size) matches Some((start, end)) ==> {
            &&& 0 <= start <= size
            &&& end < size
            &&& !is_empty_suffix(range) ==> start <= end
            &&& is_empty_suffix(range) ==> start == size && end == size - 1
        },
{
}

/// The text of a range from byte `start` to byte `end`.
pub open spec fn range_text(start: nat, end: nat) -> Seq<char> {
    "bytes="@ + decimal(start) + "-"@ + decimal(end)
}

/// The first hyphen is behind a front that has none.
proof fn lemma_first_index_behind(s: Seq<char>, c: char, from: int, at: int)
    requires
        0 <= from <= at < s.len(),
        s[at] == c,
        forall|i: int| from <= i < at ==> s[i] != c,
    ensures
        first_index(s, c, from) == Some(at),
    decreases at - from,
{
    if from < at {
        lemma_first_index_behind(s, c, from + 1, at);
    }
}

/// A range of bytes that lies in the file, written out in the usual way, asks for those bytes.
pub proof fn law_written_range_is_read(start: nat, end: nat, size: int)
    requires
        start <= end < size <= u64::MAX,
    ensures
        requested_range(range_text(start, end), size) == Some((start as int, end as int)),
        !is_empty_suffix(range_text(start, end)),
{
    let range = range_text(start, end);
    let rest = decimal(start) + "-"@ + decimal(end);
    let dash = decimal(start).len() as int;
    reveal_strlit("bytes=");
    reveal_strlit("-");
    law_decimal_reads_back(start);
    law_decimal_reads_back(end);
    assert(range =~= "bytes="@ + rest);
    assert(range.take(6) =~= "bytes="@);
    assert(range.skip(6) =~= rest);
    assert(after_prefix(range, "bytes="@) == Some(rest));
    assert forall|i: int| 0 <= i < dash implies rest[i] != '-' by {
        assert(rest[i] == decimal(start)[i]);
        assert(is_digit(decimal(start)[i]));
    }
    lemma_first_index_behind(rest, '-', 0, dash);
    assert(rest.take(dash) =~= decimal(start));
    assert(rest.skip(dash + 1) =~= decimal(end));
}

/// The two sides of a range are what stands before and behind its first hyphen.
proof fn lemma_sides(first: Seq<char>, last: Seq<char>)
    requires
        !first.contains('-'),
    ensures
        range_sides("bytes="@ + first + "-"@ + last) == Some((first, last)),
{
    reveal_strlit("bytes=");
    reveal_strlit("-");
    let range = "bytes="@ + first + "-"@ + last;
    let rest = first + "-"@ + last;
    let dash = first.len() as int;
    assert(range.take(6) =~= "bytes="@);
    assert(range.skip(6) =~= rest);
    assert(after_prefix(range, "bytes="@) == Some(rest));
    assert forall|i: int| 0 <= i < dash implies rest[i] != '-' by {
        assert(first.contains(first[i]));
    }
    lemma_first_index_behind(rest, '-', 0, dash);
    assert(rest.take(dash) =~= first);
    assert(rest.skip(dash + 1) =~= last);
}

/// A range is answered by the two numbers around its first hyphen. With both, it asks for the bytes
/// from the first to the last, cut at the end of the file; without the last, for all bytes from the
/// first on; without the first, for so many bytes at the end. The first byte has to be in the file,
/// and not behind the last one; no more bytes than there are can be asked for at the end; and
/// anything that is no number of 64 bits is not answered.
pub proof fn law_range_is_answered_by_its_numbers(first: Seq<char>, last: Seq<char>, size: int)
    requires
        !first.contains('-'),
        0 <= size <= u64::MAX,
    ensures
        ({
            let answer = requested_range("bytes="@ + first + "-"@ + last, size);
            match (unsigned_value(first), unsigned_value(last)) {
                (Some(a), Some(b)) => if a <= b <= u64::MAX && a < size {
                    answer == Some(
                        (
                            a as int,
                            if b >= size {
                                size - 1
                            } else {
                                b as int
                            },
                        ),
                    )
                } else {
                    answer is None
                },
                (Some(a), None) => if last.len() == 0 && a < size {
                    answer == Some((a as int, size - 1))
                } else {
                    answer is None
                },
                (None, Some(n)) => if first.len() == 0 && n <= size {
                    answer == Some((size - n, size - 1))
                } else {
                    answer is None
                },
                (None, None) => answer is None,
            }
        }),
{
    lemma_sides(first, last);
    assert(unsigned_value(Seq::<char>::empty()) is None);
    if first.len() == 0 {
        assert(first =~= Seq::empty());
    }
    if last.len() == 0 {
        assert(last =~= Seq::empty());
    }
}

/// Where `c` is not found, it is not there.
proof fn lemma_not_found(s: Seq<char>, c: char, from: int)
    requires
        0 <= from,
    ensures
        match first_index(s, c, from) {
            Some(i) => from <= i < s.len() && s[i] == c && forall|j: int| from <= j < i ==> s[j] != c,
            None => forall|j: int| from <= j < s.len() ==> s[j] != c,
        },
    decreases s.len() - from,
{
    if from < s.len() && s[from] != c {
        lemma_not_found(s, c, from + 1);
    }
}

/// Only a text that begins with `bytes=` and has a hyphen after that is answered: whatever is
/// answered has two sides.
pub proof fn law_answered_range_has_sides(range: Seq<char>, size: int)
    ensures
        requested_range(range, size) is Some ==> exists|first: Seq<char>, last: Seq<char>|
            !first.contains('-') && range == #[trigger] ("bytes="@ + first + "-"@ + last),
{
    if requested_range(range, size) is Some {
        reveal_strlit("-");
        let (first, last) = range_sides(range)->0;
        let rest = after_prefix(range, "bytes="@)->0;
        let dash = first_index(rest, '-', 0)->0;
        lemma_not_found(rest, '-', 0);
        assert forall|i: int| 0 <= i < first.len() implies first[i] != '-' by {
            assert(first[i] == rest[i]);
        }
        assert(range =~= "bytes="@ + rest);
        assert(rest =~= first + "-"@ + last);
        assert(range =~= "bytes="@ + first + "-"@ + last);
    }
}

/// A decimal number holds no hyphen and is read.
proof fn lemma_decimal_side(n: nat)
    ensures
        !decimal(n).contains('-'),
        unsigned_value(decimal(n)) == Some(n),
        decimal(n).len() > 0,
{
    law_decimal_reads_back(n);
    assert forall|i: int| 0 <= i < decimal(n).len() implies decimal(n)[i] != '-' by {
        assert(is_digit(decimal(n)[i]));
    }
}

/// A request for everything from a byte of the file on asks for just that, from the first byte of
/// the file to the last one.
pub proof fn law_open_range_is_read(start: nat, size: int)
    requires
        start < size <= u64::MAX,
    ensures
        requested_range("bytes="@ + decimal(start) + "-"@, size) == Some((start as int, size - 1)),
{
    let none = Seq::<char>::empty();
    lemma_decimal_side(start);
    assert(unsigned_value(none) is None);
    law_range_is_answered_by_its_numbers(decimal(start), none, size);
    assert("bytes="@ + decimal(start) + "-"@ + none =~= "bytes="@ + decimal(start) + "-"@);
}

/// A request for some bytes at the end of the file asks for just those, down to the last byte and
/// up to the whole file.
pub proof fn law_suffix_range_is_read(length: nat, size: int)
    requires
        1 <= length <= size <= u64::MAX,
    ensures
        requested_range("bytes=-"@ + decimal(length), size) == Some((size - length, size - 1)),
{
    let none = Seq::<char>::empty();
    lemma_decimal_side(length);
    assert(unsigned_value(none) is None);
    law_range_is_answered_by_its_numbers(none, decimal(length), size);
    reveal_strlit("bytes=");
    reveal_strlit("-");
    reveal_strlit("bytes=-");
    assert("bytes="@ + none + "-"@ + decimal(length) =~= "bytes=-"@ + decimal(length));
}

/// A request that begins behind the file, or runs backwards, is not answered, and one that ends
/// behind the file is cut.
pub proof fn law_range_is_cut_or_refused(start: nat, end: nat, size: int)
    requires
        0 <= size <= u64::MAX,
        end <= u64::MAX,
    ensures
        start >= size || end < start ==> requested_range(range_text(start, end), size) is None,
        start < size <= end ==> requested_range(range_text(start, end), size) == Some(
            (start as int, size - 1),
        ),
        start >= size ==> requested_range("bytes="@ + decimal(start) + "-"@, size) is None,
        end > size ==> requested_range("bytes=-"@ + decimal(end), size) is None,
{
    let none = Seq::<char>::empty();
    lemma_decimal_side(start);
    lemma_decimal_side(end);
    assert(unsigned_value(none) is None);
    reveal_strlit("bytes=");
    reveal_strlit("-");
    reveal_strlit("bytes=-");
    law_range_is_answered_by_its_numbers(decimal(start), decimal(end), size);
    law_range_is_answered_by_its_numbers(decimal(start), none, size);
    law_range_is_answered_by_its_numbers(none, decimal(end), size);
    assert("bytes="@ + decimal(start) + "-"@ + none =~= "bytes="@ + decimal(start) + "-"@);
    assert("bytes="@ + none + "-"@ + decimal(end) =~= "bytes=-"@ + decimal(end));
}

/// A range asks for nothing exactly if it has no first number and a last number of 0.
pub proof fn law_empty_suffix(first: Seq<char>, last: Seq<char>)
    requires
        !first.contains('-'),
    ensures
        is_empty_suffix("bytes="@ + first + "-"@ + last) <==> first.len() == 0 && unsigned_value(last)
            == Some(0nat),
{
    lemma_sides(first, last);
}

/// A header is read as text exactly if every byte is visible ASCII, a space or a tab, and then each
/// byte is the character with its code.
pub proof fn law_header_bytes_are_characters(raw: Seq<u8>)
    ensures
        is_header_text(raw) <==> forall|i: int|
            0 <= i < raw.len() ==> 0x20 <= #[trigger] raw[i] <= 0x7e || raw[i] == 9,
        ascii_text(raw).len() == raw.len(),
        forall|i: int|
            0 <= i < raw.len() ==> (#[trigger] ascii_text(raw)[i]) as int == raw[i] as int,
{
    if forall|i: int| 0 <= i < raw.len() ==> 0x20 <= #[trigger] raw[i] <= 0x7e || raw[i] == 9 {
        assert(forall|i: int| 0 <= i < raw.len() ==> is_header_byte(#[trigger] raw[i]));
    }
    if is_header_text(raw) {
        assert forall|i: int| 0 <= i < raw.len() implies 0x20 <= #[trigger] raw[i] <= 0x7e || raw[i]
            == 9 by {
            assert(is_header_byte(raw[i]));
        }
    }
}

/// A header is missing, not text, or the text that it holds.
pub proof fn law_headers_are_what_they_hold(text: String)
    ensures
        RangeHeader::Absent@ == RangeHeaderView::Absent,
        RangeHeader::Unreadable@ == RangeHeaderView::Unreadable,
        RangeHeader::Text(text)@ == RangeHeaderView::Text(text@),
{
}

} // verus!
