//! The top level of a fragmented MP4 file: a chain of boxes, each of which begins with its size
//! in four big-endian bytes and its type in four more. A fragment begins with a `moof` box.

use vstd::prelude::*;

verus! {

/// How many bytes the size and the type of a box take.
pub const BOX_HEADER_LEN: usize = 8;

/// The size that the box at `pos` gives for itself.
pub open spec fn box_size(buffer: Seq<u8>, pos: int) -> int {
    buffer[pos] * 0x100_0000 + buffer[pos + 1] * 0x1_0000 + buffer[pos + 2] * 0x100 + buffer[pos + 3]
}

/// Whether the box at `pos` begins a fragment: its type is `moof`.
pub open spec fn is_moof(buffer: Seq<u8>, pos: int) -> bool {
    buffer.subrange(pos + 4, pos + 8) == seq![0x6du8, 0x6fu8, 0x6fu8, 0x66u8]
}

/// Whether the buffer holds a whole box header at `pos` with a size that can be right.
pub open spec fn has_box(buffer: Seq<u8>, pos: int) -> bool {
    pos + BOX_HEADER_LEN <= buffer.len() && box_size(buffer, pos) >= BOX_HEADER_LEN
}

/// Where fragments begin, along the chain of boxes from `pos` on. The chain ends at a header that
/// is not there or whose size cannot be right, and behind a box that the buffer does not hold whole.
pub open spec fn fragments_from(buffer: Seq<u8>, pos: nat) -> Seq<nat>
    decreases buffer.len() - pos,
{
    if !has_box(buffer, pos as int) {
        Seq::empty()
    } else {
        let here = if is_moof(buffer, pos as int) {
            seq![pos]
        } else {
            Seq::empty()
        };
        let next = (pos + box_size(buffer, pos as int)) as nat;
        if next > buffer.len() {
            here
        } else {
            here + fragments_from(buffer, next)
        }
    }
}

/// Where the fragments of a buffer begin.
pub open spec fn fragment_offsets(buffer: Seq<u8>) -> Seq<nat> {
    fragments_from(buffer, 0)
}

/// Positions as numbers.
pub open spec fn positions(offsets: Seq<usize>) -> Seq<nat> {
    offsets.map_values(|o: usize| o as nat)
}

/// Reads the chain of boxes and returns where each `moof` box begins.
///
/// Only box sizes of 32 bits are understood, which is enough for streams under 4 GB.
pub fn parse_mp4_fragment_offsets(buffer: &[u8]) -> (offsets: Vec<usize>)
    ensures
        positions(offsets@) == fragment_offsets(buffer@),
{
    let n: usize = buffer.len();
    let mut offsets: Vec<usize> = Vec::new();
    let mut pos: usize = 0;
    assert(positions(offsets@) + fragments_from(buffer@, 0) =~= fragment_offsets(buffer@));
    while n - pos >= BOX_HEADER_LEN
        invariant_except_break
            positions(offsets@) + fragments_from(buffer@, pos as nat) == fragment_offsets(buffer@),
        invariant
            n == buffer@.len(),
            pos <= n,
        ensures
            positions(offsets@) == fragment_offsets(buffer@),
        decreases n - pos,
    {
        let ghost rest = fragments_from(buffer@, pos as nat);
        let ghost found = positions(offsets@);
        let size: u64 = buffer[pos] as u64 * 0x100_0000 + buffer[pos + 1] as u64 * 0x1_0000
            + buffer[pos + 2] as u64 * 0x100 + buffer[pos + 3] as u64;
        if size < BOX_HEADER_LEN as u64 {
            assert(found + rest =~= found);
            break;
        }
        let moof: bool = buffer[pos + 4] == 0x6d && buffer[pos + 5] == 0x6f && buffer[pos + 6]
            == 0x6f && buffer[pos + 7] == 0x66;
        let ghost kind = buffer@.subrange(pos + 4, pos + 8);
        assert(moof == is_moof(buffer@, pos as int)) by {
            assert(kind[0] == buffer@[pos + 4] && kind[1] == buffer@[pos + 5] && kind[2]
                == buffer@[pos + 6] && kind[3] == buffer@[pos + 7]);
            if moof {
                assert(kind =~= seq![0x6du8, 0x6fu8, 0x6fu8, 0x66u8]);
            }
        }
        if moof {
            offsets.push(pos);
        }
        let ghost here = if moof {
            seq![pos as nat]
        } else {
            Seq::<nat>::empty()
        };
        assert(positions(offsets@) =~= found + here);
        if size > (n - pos) as u64 {
            break;
        }
        let ghost next = (pos + size) as nat;
        assert(rest == here + fragments_from(buffer@, next));
        assert((found + here) + fragments_from(buffer@, next) =~= found + rest);
        pos = pos + size as usize;
    }
    offsets
}

/// Fragments come in order, each with a whole header inside the buffer.
pub proof fn law_fragments_in_order(buffer: Seq<u8>, pos: nat)
    ensures
        forall|i: int|
            0 <= i < fragments_from(buffer, pos).len() ==> {
                let at = #[trigger] fragments_from(buffer, pos)[i];
                pos <= at && at + BOX_HEADER_LEN <= buffer.len() && is_moof(buffer, at as int)
            },
        forall|i: int, j: int|
            0 <= i < j < fragments_from(buffer, pos).len() ==> fragments_from(buffer, pos)[i]
                + BOX_HEADER_LEN <= fragments_from(buffer, pos)[j],
    decreases buffer.len() - pos,
{
    if has_box(buffer, pos as int) {
        let next = (pos + box_size(buffer, pos as int)) as nat;
        let all = fragments_from(buffer, pos);
        let first: int = if is_moof(buffer, pos as int) {
            1
        } else {
            0
        };
        if next <= buffer.len() {
            law_fragments_in_order(buffer, next);
            let later = fragments_from(buffer, next);
            assert(all.len() == first + later.len());
            assert(forall|i: int| first <= i < all.len() ==> all[i] == later[i - first]);
        }
    }
}

/// Bytes that come later add fragments and change none that was found before.
pub proof fn law_fragments_stay(buffer: Seq<u8>, more: Seq<u8>, pos: nat)
    requires
        pos <= buffer.len(),
    ensures
        fragments_from(buffer, pos).is_prefix_of(fragments_from(buffer + more, pos)),
    decreases buffer.len() - pos,
{
    let grown = buffer + more;
    if has_box(buffer, pos as int) {
        let next = (pos + box_size(buffer, pos as int)) as nat;
        assert(box_size(grown, pos as int) == box_size(buffer, pos as int));
        let at = pos as int;
        assert(grown.subrange(at + 4, at + 8) =~= buffer.subrange(at + 4, at + 8));
        if next <= buffer.len() {
            law_fragments_stay(buffer, more, next);
        }
    }
}

/// A box of an MP4 file: its type and what it holds.
pub struct BoxView {
    pub kind: Seq<u8>,
    pub payload: Seq<u8>,
}

impl BoxView {
    /// The type takes four bytes, and the size of the whole box fits in 32 bits.
    pub open spec fn wf(self) -> bool {
        self.kind.len() == 4 && self.payload.len() + 8 <= u32::MAX
    }

    /// Whether the box begins a fragment.
    pub open spec fn begins_fragment(self) -> bool {
        self.kind == seq!['m' as u8, 'o' as u8, 'o' as u8, 'f' as u8]
    }

    /// The bytes of the box: its size in four bytes, most significant first, its type and what it
    /// holds.
    pub open spec fn bytes(self) -> Seq<u8> {
        big_endian((self.payload.len() + 8) as u32) + self.kind + self.payload
    }
}

/// A number in four bytes, most significant first.
pub open spec fn big_endian(n: u32) -> Seq<u8> {
    seq![(n >> 24) as u8, (n >> 16) as u8, (n >> 8) as u8, n as u8]
}

/// The bytes of boxes, one after the other.
pub open spec fn chain(boxes: Seq<BoxView>) -> Seq<u8>
    decreases boxes.len(),
{
    if boxes.len() == 0 {
        Seq::empty()
    } else {
        boxes[0].bytes() + chain(boxes.skip(1))
    }
}

/// Where boxes that begin a fragment begin, when the first box is at `pos`.
pub open spec fn starts(boxes: Seq<BoxView>, pos: nat) -> Seq<nat>
    decreases boxes.len(),
{
    if boxes.len() == 0 {
        Seq::empty()
    } else {
        (if boxes[0].begins_fragment() {
            seq![pos]
        } else {
            Seq::empty()
        }) + starts(boxes.skip(1), pos + boxes[0].bytes().len())
    }
}

/// A size of 32 bits that is written most significant byte first is read as it was written.
pub proof fn law_box_size_is_read(n: u32, before: Seq<u8>, after: Seq<u8>)
    ensures
        box_size(before + big_endian(n) + after, before.len() as int) == n,
{
    let buffer = before + big_endian(n) + after;
    let pos = before.len() as int;
    let a: u8 = (n >> 24) as u8;
    let b: u8 = (n >> 16) as u8;
    let c: u8 = (n >> 8) as u8;
    let d: u8 = n as u8;
    assert(buffer[pos] == a && buffer[pos + 1] == b && buffer[pos + 2] == c && buffer[pos + 3] == d);
    assert(((n >> 24) as u8) * 0x100_0000 + ((n >> 16) as u8) * 0x1_0000 + ((n >> 8) as u8) * 0x100 + (
    n as u8) == n) by (bit_vector);
}

/// What is found at a box that the buffer holds at least with its header.
proof fn lemma_box_at(before: Seq<u8>, b: BoxView, held: int, after: Seq<u8>)
    requires
        b.wf(),
        8 <= held <= b.bytes().len(),
    ensures
        ({
            let buffer = before + b.bytes().take(held) + after;
            let pos = before.len() as int;
            &&& has_box(buffer, pos)
            &&& box_size(buffer, pos) == b.bytes().len()
            &&& is_moof(buffer, pos) == b.begins_fragment()
        }),
{
    let size = big_endian((b.payload.len() + 8) as u32);
    let rest = b.bytes().take(held).skip(4) + after;
    let buffer = before + b.bytes().take(held) + after;
    let pos = before.len() as int;
    assert(buffer =~= before + size + rest);
    law_box_size_is_read((b.payload.len() + 8) as u32, before, rest);
    assert(buffer.subrange(pos + 4, pos + 8) =~= b.kind);
}

/// From a whole box on the chain goes on behind it.
proof fn lemma_whole_box(before: Seq<u8>, b: BoxView, after: Seq<u8>)
    requires
        b.wf(),
    ensures
        fragments_from(before + b.bytes() + after, before.len()) == (if b.begins_fragment() {
            seq![before.len()]
        } else {
            Seq::empty()
        }) + fragments_from(before + b.bytes() + after, before.len() + b.bytes().len()),
{
    let whole = b.bytes();
    lemma_box_at(before, b, whole.len() as int, after);
    assert(whole.take(whole.len() as int) =~= whole);
}

/// In a buffer that holds a chain of boxes, of any sizes up to 32 bits, the fragments that are
/// found in the chain begin exactly where its boxes of type `moof` begin; what follows the chain is
/// looked at after that.
pub proof fn law_fragments_of_a_chain(before: Seq<u8>, boxes: Seq<BoxView>, after: Seq<u8>)
    requires
        forall|i: int| 0 <= i < boxes.len() ==> (#[trigger] boxes[i]).wf(),
    ensures
        fragments_from(before + chain(boxes) + after, before.len()) == starts(boxes, before.len())
            + fragments_from(before + chain(boxes) + after, before.len() + chain(boxes).len()),
    decreases boxes.len(),
{
    let buffer = before + chain(boxes) + after;
    let pos = before.len();
    let end = pos + chain(boxes).len();
    let found = fragments_from(buffer, end);
    if boxes.len() == 0 {
        assert(starts(boxes, pos) + found =~= found);
    } else {
        let whole = boxes[0].bytes();
        let others = boxes.skip(1);
        let next = pos + whole.len();
        assert forall|i: int| 0 <= i < others.len() implies (#[trigger] others[i]).wf() by {
            assert(boxes[i + 1].wf());
        }
        assert(buffer =~= before + whole + (chain(others) + after));
        lemma_whole_box(before, boxes[0], chain(others) + after);
        law_fragments_of_a_chain(before + whole, others, after);
        assert(buffer =~= (before + whole) + chain(others) + after);
        let here = if boxes[0].begins_fragment() {
            seq![pos]
        } else {
            Seq::empty()
        };
        assert(fragments_from(buffer, next) == starts(others, next) + found);
        assert(here + (starts(others, next) + found) =~= (here + starts(others, next)) + found);
    }
}

/// The fragments of a buffer that is nothing but a chain of boxes, of any sizes up to 32 bits,
/// begin exactly where its boxes of type `moof` begin.
pub proof fn law_fragments_are_the_moof_boxes(boxes: Seq<BoxView>)
    requires
        forall|i: int| 0 <= i < boxes.len() ==> (#[trigger] boxes[i]).wf(),
    ensures
        fragment_offsets(chain(boxes)) == starts(boxes, 0),
{
    let none = Seq::<u8>::empty();
    law_fragments_of_a_chain(none, boxes, none);
    assert(none + chain(boxes) + none =~= chain(boxes));
    assert(fragments_from(chain(boxes), chain(boxes).len()) == Seq::<nat>::empty());
    assert(starts(boxes, 0) + Seq::<nat>::empty() =~= starts(boxes, 0));
}

/// Behind a chain of boxes, the last box counts as soon as its header is there, and nothing is
/// found in a header that is not whole.
pub proof fn law_last_box_counts_with_its_header(before: Seq<u8>, b: BoxView, held: int)
    requires
        b.wf(),
        0 <= held < b.bytes().len(),
    ensures
        fragments_from(before + b.bytes().take(held), before.len()) == (if held >= 8
            && b.begins_fragment() {
            seq![before.len()]
        } else {
            Seq::empty()
        }),
{
    if held >= 8 {
        lemma_box_at(before, b, held, Seq::empty());
        assert(before + b.bytes().take(held) + Seq::<u8>::empty() =~= before + b.bytes().take(held));
    }
}

/// A size that is smaller than the header it stands in ends the chain.
pub proof fn law_impossible_size_ends_the_chain(before: Seq<u8>, n: u32, after: Seq<u8>)
    requires
        n < 8,
    ensures
        fragments_from(before + big_endian(n) + after, before.len()) == Seq::<nat>::empty(),
{
    law_box_size_is_read(n, before, after);
}

/// Positions are the numbers that are given, in order.
pub proof fn law_positions_are_the_offsets(offsets: Seq<usize>, i: int)
    requires
        0 <= i < offsets.len(),
    ensures
        positions(offsets).len() == offsets.len(),
        positions(offsets)[i] == offsets[i],
{
}

/// Where a box begins in the boxes behind the first one.
proof fn lemma_starts_hold(boxes: Seq<BoxView>, pos: nat, i: int)
    requires
        0 <= i < boxes.len(),
        boxes[i].begins_fragment(),
    ensures
        starts(boxes, pos).contains(pos + chain(boxes.take(i)).len()),
    decreases boxes.len(),
{
    let here: Seq<nat> = if boxes[0].begins_fragment() {
        seq![pos]
    } else {
        Seq::empty()
    };
    let next = pos + boxes[0].bytes().len();
    let later = starts(boxes.skip(1), next);
    if i == 0 {
        assert(chain(boxes.take(0)).len() == 0);
        assert((here + later)[0] == pos);
    } else {
        lemma_starts_hold(boxes.skip(1), next, i - 1);
        assert(boxes.take(i).skip(1) =~= boxes.skip(1).take(i - 1));
        assert(boxes.take(i)[0] == boxes[0]);
        let at = next + chain(boxes.skip(1).take(i - 1)).len();
        let k = choose|k: int| 0 <= k < later.len() && later[k] == at;
        assert((here + later)[here.len() + k] == at);
    }
}

/// Every box of type `moof` in a chain is found where it begins: behind the boxes before it.
pub proof fn law_every_moof_box_is_found(boxes: Seq<BoxView>, i: int)
    requires
        forall|k: int| 0 <= k < boxes.len() ==> (#[trigger] boxes[k]).wf(),
        0 <= i < boxes.len(),
        boxes[i].kind == seq![0x6du8, 0x6fu8, 0x6fu8, 0x66u8],
    ensures
        fragment_offsets(chain(boxes)).contains(chain(boxes.take(i)).len()),
{
    law_fragments_are_the_moof_boxes(boxes);
    lemma_starts_hold(boxes, 0, i);
}

} // verus!
