//! Text as a sequence of characters: comparing, converting, trimming and splitting.

use vstd::prelude::*;
use vstd::string::*;
use vstd::utf8::*;

verus! {

/// `String::push` appends one character at the end of the string.
pub assume_specification[ String::push ](s: &mut String, c: char)
    ensures
        final(s)@ == old(s)@.push(c),
;

/// Two texts whose UTF-8 bytes agree are the same text.
proof fn lemma_bytes_determine_text(a: Seq<char>, b: Seq<char>)
    ensures
        encode_utf8(a) == encode_utf8(b) <==> a == b,
{
    encode_utf8_decode_utf8(a);
    encode_utf8_decode_utf8(b);
}

/// Whether two strings hold the same characters.
pub fn same_text(a: &str, b: &str) -> (same: bool)
    ensures
        same == (a@ == b@),
{
    proof {
        lemma_bytes_determine_text(a@, b@);
    }
    let x: &[u8] = a.as_bytes();
    let y: &[u8] = b.as_bytes();
    if x.len() != y.len() {
        return false;
    }
    let n: usize = x.len();
    for i in 0..n
        invariant
            n == x@.len(),
            n == y@.len(),
            x@ == encode_utf8(a@),
            y@ == encode_utf8(b@),
            encode_utf8(a@) == encode_utf8(b@) <==> a@ == b@,
            forall|j: int| 0 <= j < i ==> x@[j] == y@[j],
    {
        if x[i] != y[i] {
            return false;
        }
    }
    assert(x@ =~= y@);
    true
}

/// The characters of a string, in order.
pub fn to_chars(s: &str) -> (chars: Vec<char>)
    ensures
        chars@ == s@,
{
    let mut chars: Vec<char> = Vec::new();
    for c in it: s.chars()
        invariant
            chars@.len() == it.index(),
            it.seq() == s@,
            forall|j: int| 0 <= j < it.index() ==> chars@[j] == s@[j],
    {
        chars.push(c);
    }
    assert(chars@ =~= s@);
    chars
}

/// The string made of the given characters.
pub fn from_chars(chars: &[char]) -> (s: String)
    ensures
        s@ == chars@,
{
    let mut s: String = String::new();
    let n: usize = chars.len();
    for i in 0..n
        invariant
            n == chars@.len(),
            s@ =~= chars@.take(i as int),
    {
        s.push(chars[i]);
    }
    assert(chars@.take(n as int) =~= chars@);
    s
}

/// Whether `c` has Unicode's White_Space property.
pub open spec fn white_space(c: char) -> bool {
    ||| '\u{9}' <= c <= '\u{d}'
    ||| c == ' '
    ||| c == '\u{85}'
    ||| c == '\u{a0}'
    ||| c == '\u{1680}'
    ||| '\u{2000}' <= c <= '\u{200a}'
    ||| c == '\u{2028}'
    ||| c == '\u{2029}'
    ||| c == '\u{202f}'
    ||| c == '\u{205f}'
    ||| c == '\u{3000}'
}

/// Tests a character for Unicode's White_Space property.
pub fn is_white_space(c: char) -> (yes: bool)
    ensures
        yes == white_space(c),
{
    ('\u{9}' <= c && c <= '\u{d}') || c == ' ' || c == '\u{85}' || c == '\u{a0}' || c == '\u{1680}' || (
    '\u{2000}' <= c && c <= '\u{200a}') || c == '\u{2028}' || c == '\u{2029}' || c == '\u{202f}' || c
        == '\u{205f}' || c == '\u{3000}'
}

/// The text without its leading white space.
pub open spec fn trim_front(s: Seq<char>) -> Seq<char>
    decreases s.len(),
{
    if s.len() > 0 && white_space(s[0]) {
        trim_front(s.skip(1))
    } else {
        s
    }
}

/// The text without its trailing white space.
pub open spec fn trim_back(s: Seq<char>) -> Seq<char>
    decreases s.len(),
{
    if s.len() > 0 && white_space(s.last()) {
        trim_back(s.drop_last())
    } else {
        s
    }
}

/// The text without white space at either end.
pub open spec fn trimmed(s: Seq<char>) -> Seq<char> {
    trim_back(trim_front(s))
}

/// Removes white space at both ends of a text.
pub fn trim(s: &str) -> (inner: String)
    ensures
        inner@ == trimmed(s@),
{
    let chars: Vec<char> = to_chars(s);
    let n: usize = chars.len();
    let mut from: usize = 0;
    assert(s@.skip(0) =~= s@);
    while from < n && is_white_space(chars[from])
        invariant
            chars@ == s@,
            n == chars@.len(),
            from <= n,
            trim_front(s@) == trim_front(s@.skip(from as int)),
        decreases n - from,
    {
        assert(s@.skip(from as int).skip(1) =~= s@.skip(from + 1));
        from += 1;
    }
    let ghost front = s@.skip(from as int);
    assert(trim_front(s@) == front);
    let mut to: usize = n;
    assert(s@.subrange(from as int, n as int) =~= front);
    while to > from && is_white_space(chars[to - 1])
        invariant
            chars@ == s@,
            n == chars@.len(),
            from <= to <= n,
            trim_back(front) == trim_back(s@.subrange(from as int, to as int)),
        decreases to,
    {
        assert(s@.subrange(from as int, to as int).drop_last() =~= s@.subrange(
            from as int,
            to - 1,
        ));
        to -= 1;
    }
    let mut inner: String = String::new();
    for i in from..to
        invariant
            chars@ == s@,
            from <= to <= chars@.len(),
            inner@ =~= s@.subrange(from as int, i as int),
    {
        inner.push(chars[i]);
    }
    inner
}

/// The pieces of a text between the separators `sep`; one more than there are separators.
pub open spec fn split(s: Seq<char>, sep: char) -> Seq<Seq<char>>
    decreases s.len(),
{
    if s.len() == 0 {
        seq![Seq::empty()]
    } else {
        let before = split(s.drop_last(), sep);
        if s.last() == sep {
            before.push(Seq::empty())
        } else {
            before.drop_last().push(before.last().push(s.last()))
        }
    }
}

/// The texts that a list of character vectors holds.
pub open spec fn texts(parts: Seq<Vec<char>>) -> Seq<Seq<char>> {
    parts.map_values(|part: Vec<char>| part@)
}

/// Splits a text at every `sep`.
pub fn split_at_each(s: &str, sep: char) -> (parts: Vec<Vec<char>>)
    ensures
        texts(parts@) == split(s@, sep),
        parts@.len() > 0,
{
    let chars: Vec<char> = to_chars(s);
    let mut parts: Vec<Vec<char>> = Vec::new();
    let mut piece: Vec<char> = Vec::new();
    let n: usize = chars.len();
    assert(texts(parts@).push(piece@) =~= split(s@.take(0), sep));
    for i in 0..n
        invariant
            n == chars@.len(),
            chars@ == s@,
            texts(parts@).push(piece@) == split(s@.take(i as int), sep),
    {
        let ghost before = texts(parts@).push(piece@);
        assert(s@.take(i + 1).drop_last() =~= s@.take(i as int));
        if chars[i] == sep {
            parts.push(piece);
            piece = Vec::new();
            assert(texts(parts@) =~= before);
        } else {
            piece.push(chars[i]);
            assert(before.drop_last() =~= texts(parts@));
        }
    }
    assert(s@.take(n as int) =~= s@);
    let ghost all = texts(parts@).push(piece@);
    parts.push(piece);
    assert(texts(parts@) =~= all);
    parts
}

/// Pieces put together, with `sep` between each and the next.
pub open spec fn joined_with(parts: Seq<Seq<char>>, sep: char) -> Seq<char>
    decreases parts.len(),
{
    if parts.len() == 0 {
        Seq::empty()
    } else if parts.len() == 1 {
        parts[0]
    } else {
        joined_with(parts.drop_last(), sep).push(sep) + parts.last()
    }
}

/// Whether no piece holds `sep`.
pub open spec fn are_whole(parts: Seq<Seq<char>>, sep: char) -> bool {
    forall|i: int| 0 <= i < parts.len() ==> !(#[trigger] parts[i]).contains(sep)
}

/// A text without separators goes to the last piece of what it follows.
proof fn lemma_split_then(s: Seq<char>, piece: Seq<char>, sep: char)
    requires
        !piece.contains(sep),
    ensures
        split(s, sep).len() > 0,
        split(s + piece, sep) == split(s, sep).drop_last().push(split(s, sep).last() + piece),
    decreases s.len() + piece.len(),
{
    let before = split(s, sep);
    if s.len() > 0 {
        lemma_split_then(s.drop_last(), Seq::empty(), sep);
    }
    if piece.len() == 0 {
        assert(s + piece =~= s);
        assert(before.last() + piece =~= before.last());
        assert(before =~= before.drop_last().push(before.last()));
    } else {
        let front = piece.drop_last();
        assert forall|i: int| 0 <= i < front.len() implies front[i] != sep by {
            assert(piece.contains(piece[i]));
        }
        lemma_split_then(s, front, sep);
        assert((s + piece).drop_last() =~= s + front);
        assert(piece.contains(piece.last()));
        assert(before.last() + piece =~= (before.last() + front).push(piece.last()));
        assert(split(s + piece, sep) =~= before.drop_last().push(before.last() + piece));
    }
}

/// Pieces that were put together with separators are found again by splitting.
pub proof fn law_joined_pieces_are_split(parts: Seq<Seq<char>>, sep: char)
    requires
        parts.len() > 0,
        are_whole(parts, sep),
    ensures
        split(joined_with(parts, sep), sep) == parts,
    decreases parts.len(),
{
    let piece = parts.last();
    if parts.len() == 1 {
        lemma_split_then(Seq::empty(), piece, sep);
        assert(Seq::<char>::empty() + piece =~= piece);
        assert(parts =~= seq![piece]);
    } else {
        let front = joined_with(parts.drop_last(), sep);
        law_joined_pieces_are_split(parts.drop_last(), sep);
        lemma_split_then(front.push(sep), piece, sep);
        assert(front.push(sep).drop_last() =~= front);
        assert(Seq::<char>::empty() + piece =~= piece);
        assert(parts.drop_last().push(Seq::empty()).drop_last() =~= parts.drop_last());
        assert(parts.drop_last().push(piece) =~= parts);
    }
}

/// Putting the pieces of a text together again gives the text, and no piece holds a separator.
pub proof fn law_split_is_undone_by_joining(s: Seq<char>, sep: char)
    ensures
        split(s, sep).len() > 0,
        are_whole(split(s, sep), sep),
        joined_with(split(s, sep), sep) == s,
    decreases s.len(),
{
    let parts = split(s, sep);
    if s.len() > 0 {
        let before = split(s.drop_last(), sep);
        law_split_is_undone_by_joining(s.drop_last(), sep);
        if s.last() == sep {
            assert(parts.drop_last() =~= before);
            assert(s.drop_last().push(sep) + Seq::<char>::empty() =~= s);
        } else {
            assert(parts.drop_last() =~= before.drop_last());
            assert(parts.last() == before.last().push(s.last()));
            assert forall|i: int| 0 <= i < parts.last().len() implies parts.last()[i] != sep by {
                if i < before.last().len() {
                    assert(before[before.len() - 1].contains(before.last()[i]));
                }
            }
            assert forall|i: int| 0 <= i < parts.len() implies !(#[trigger] parts[i]).contains(sep) by {
                if i < parts.len() - 1 {
                    assert(parts[i] == before[i]);
                }
            }
            assert(joined_with(parts, sep) =~= joined_with(before, sep).push(s.last()));
            assert(s.drop_last().push(s.last()) =~= s);
        }
    }
}

/// What follows `prefix` in a text that begins with it.
pub open spec fn after_prefix(s: Seq<char>, prefix: Seq<char>) -> Option<Seq<char>> {
    if prefix.is_prefix_of(s) {
        Some(s.skip(prefix.len() as int))
    } else {
        None
    }
}

/// Takes `prefix` off the front of a text that begins with it.
pub fn strip_prefix(s: &str, prefix: &str) -> (rest: Option<String>)
    ensures
        match rest {
            Some(r) => after_prefix(s@, prefix@) == Some(r@),
            None => after_prefix(s@, prefix@) is None,
        },
{
    let chars: Vec<char> = to_chars(s);
    let front: Vec<char> = to_chars(prefix);
    let n: usize = front.len();
    let len: usize = chars.len();
    if len < n {
        return None;
    }
    for i in 0..n
        invariant
            chars@ == s@,
            front@ == prefix@,
            n == front@.len(),
            n <= chars@.len(),
            forall|j: int| 0 <= j < i ==> chars@[j] == front@[j],
    {
        if chars[i] != front[i] {
            return None;
        }
    }
    assert(s@.take(n as int) =~= prefix@);
    let mut rest: String = String::new();
    for i in n..len
        invariant
            chars@ == s@,
            n <= len,
            len == chars@.len(),
            rest@ =~= s@.subrange(n as int, i as int),
    {
        rest.push(chars[i]);
    }
    assert(s@.subrange(n as int, len as int) =~= s@.skip(n as int));
    Some(rest)
}

/// The lower-case form of a letter from `A` to `Z`, and any other character unchanged.
pub open spec fn ascii_lower(c: char) -> char {
    if 'A' <= c <= 'Z' {
        (c as int + 32) as char
    } else {
        c
    }
}

/// A text with its letters from `A` to `Z` in lower case.
pub open spec fn ascii_lowered(s: Seq<char>) -> Seq<char> {
    s.map_values(|c: char| ascii_lower(c))
}

/// What `str::to_lowercase` makes of a text.
pub uninterp spec fn lowercase(s: Seq<char>) -> Seq<char>;

/// Calls `str::to_lowercase`, which maps a text to lower case by Unicode's rules. Those take
/// pages, so the result has a name; of an ASCII text it is the letters from `A` to `Z` in lower
/// case and all else unchanged.
#[verifier::external_body]
pub(crate) fn to_lowercase(s: &str) -> (lower: String)
    ensures
        lower@ == lowercase(s@),
        is_ascii_chars(s@) ==> lower@ == ascii_lowered(s@),
{
    s.to_lowercase()
}

/// What `String::from_utf8_lossy` makes of bytes.
pub uninterp spec fn utf8_lossy(bytes: Seq<u8>) -> Seq<char>;

/// Calls `String::from_utf8_lossy`, which decodes UTF-8 and puts U+FFFD in place of ill-formed
/// sequences. Where the bytes are well-formed it is plain decoding.
#[verifier::external_body]
pub(crate) fn from_utf8_lossy(bytes: &[u8]) -> (s: String)
    ensures
        s@ == utf8_lossy(bytes@),
        valid_utf8(bytes@) ==> s@ == decode_utf8(bytes@),
{
    String::from_utf8_lossy(bytes).into_owned()
}

/// White space are the characters with the given code points, and no others.
pub proof fn law_white_space_characters(c: char)
    ensures
        white_space(c) <==> {
            let code = c as int;
            9 <= code <= 13 || code == 32 || code == 133 || code == 160 || code == 5760 || 8192 <= code
                <= 8202 || code == 8232 || code == 8233 || code == 8239 || code == 8287 || code == 12288
        },
{
}

/// What trimming the front takes off is white space, and what is left does not begin with any.
proof fn lemma_trim_front(s: Seq<char>) -> (from: int)
    ensures
        0 <= from <= s.len(),
        trim_front(s) == s.skip(from),
        forall|i: int| 0 <= i < from ==> white_space(#[trigger] s[i]),
        from < s.len() ==> !white_space(s[from]),
    decreases s.len(),
{
    if s.len() > 0 && white_space(s[0]) {
        let rest = s.skip(1);
        let from = lemma_trim_front(rest);
        assert(rest.skip(from) =~= s.skip(from + 1));
        assert forall|i: int| 0 <= i < from + 1 implies white_space(#[trigger] s[i]) by {
            if i > 0 {
                assert(s[i] == rest[i - 1]);
            }
        }
        from + 1
    } else {
        assert(s.skip(0) =~= s);
        0
    }
}

/// What trimming the back takes off is white space, and what is left does not end in any.
proof fn lemma_trim_back(s: Seq<char>) -> (to: int)
    ensures
        0 <= to <= s.len(),
        trim_back(s) == s.take(to),
        forall|i: int| to <= i < s.len() ==> white_space(#[trigger] s[i]),
        to > 0 ==> !white_space(s[to - 1]),
    decreases s.len(),
{
    if s.len() > 0 && white_space(s.last()) {
        let rest = s.drop_last();
        let to = lemma_trim_back(rest);
        assert(rest.take(to) =~= s.take(to));
        assert forall|i: int| to <= i < s.len() implies white_space(#[trigger] s[i]) by {
            if i < rest.len() {
                assert(s[i] == rest[i]);
            }
        }
        to
    } else {
        assert(s.take(s.len() as int) =~= s);
        s.len() as int
    }
}

/// A text that neither begins nor ends with white space is what is left of it when any white space
/// is put around it.
pub proof fn law_trimming_takes_off_white_space(before: Seq<char>, inner: Seq<char>, after: Seq<char>)
    requires
        forall|i: int| 0 <= i < before.len() ==> white_space(#[trigger] before[i]),
        forall|i: int| 0 <= i < after.len() ==> white_space(#[trigger] after[i]),
        inner.len() > 0 ==> !white_space(inner[0]) && !white_space(inner.last()),
    ensures
        trimmed(before + inner + after) == inner,
{
    let s = before + inner + after;
    let from = lemma_trim_front(s);
    let front = trim_front(s);
    let to = lemma_trim_back(front);
    assert(forall|i: int| 0 <= i < before.len() ==> s[i] == before[i]);
    assert(forall|i: int|
        before.len() <= i < before.len() + inner.len() ==> s[i] == inner[i - before.len()]);
    assert(forall|i: int|
        before.len() + inner.len() <= i < s.len() ==> s[i] == after[i - before.len() - inner.len()]);
    if inner.len() > 0 {
        assert(s[before.len() as int] == inner[0]);
        assert(from == before.len());
        let end = inner.len() as int;
        assert(front[end - 1] == inner.last());
        if to < end {
            assert(white_space(front[end - 1]));
        }
        if to > end {
            assert(front[to - 1] == after[to - 1 - end]);
        }
        assert(front.take(to) =~= inner);
    } else {
        if from < s.len() {
            assert(white_space(s[from]));
        }
        assert(front.take(to) =~= inner);
    }
}

/// There is one more piece than there are separators.
pub proof fn law_split_counts_separators(s: Seq<char>, sep: char)
    ensures
        split(s, sep).len() == s.filter(|c: char| c == sep).len() + 1,
    decreases s.len(),
{
    reveal(Seq::filter);
    if s.len() > 0 {
        law_split_counts_separators(s.drop_last(), sep);
    }
}

/// A text without separators is one piece, and a separator between two texts parts their pieces.
pub proof fn law_separator_parts_texts(a: Seq<char>, b: Seq<char>, sep: char)
    ensures
        !a.contains(sep) ==> split(a, sep) == seq![a],
        split(a.push(sep) + b, sep) == split(a, sep) + split(b, sep),
    decreases b.len(),
{
    if !a.contains(sep) {
        lemma_split_then(Seq::empty(), a, sep);
        assert(Seq::<char>::empty() + a =~= a);
        assert(split(a, sep) =~= seq![a]);
    }
    let whole = a.push(sep) + b;
    if b.len() == 0 {
        assert(whole =~= a.push(sep));
        assert(a.push(sep).drop_last() =~= a);
        assert(split(whole, sep) =~= split(a, sep) + split(b, sep));
    } else {
        law_separator_parts_texts(a, b.drop_last(), sep);
        lemma_split_then(b.drop_last(), Seq::empty(), sep);
        assert(whole.drop_last() =~= a.push(sep) + b.drop_last());
        assert(split(whole, sep) =~= split(a, sep) + split(b, sep));
    }
}

/// What follows a prefix is found, and what is found follows it.
pub proof fn law_prefix_is_taken_off(prefix: Seq<char>, rest: Seq<char>, s: Seq<char>)
    ensures
        after_prefix(prefix + rest, prefix) == Some(rest),
        after_prefix(s, prefix) matches Some(r) ==> s == prefix + r,
{
    assert((prefix + rest).take(prefix.len() as int) =~= prefix);
    assert((prefix + rest).skip(prefix.len() as int) =~= rest);
    if prefix.is_prefix_of(s) {
        assert(s =~= prefix + s.skip(prefix.len() as int));
    }
}

/// Lower case keeps the length of an ASCII text; each letter from `A` to `Z` becomes the one from
/// `a` to `z` at the same place of the alphabet, and any other character stays.
pub proof fn law_ascii_lower_case(s: Seq<char>, i: int)
    requires
        0 <= i < s.len(),
    ensures
        ascii_lowered(s).len() == s.len(),
        65 <= s[i] as int <= 90 ==> ascii_lowered(s)[i] as int - 97 == s[i] as int - 65,
        !(65 <= s[i] as int <= 90) ==> ascii_lowered(s)[i] == s[i],
{
}

/// The texts of pieces are those of each piece, in order.
pub proof fn law_texts_are_the_pieces(parts: Seq<Vec<char>>, i: int)
    requires
        0 <= i < parts.len(),
    ensures
        texts(parts).len() == parts.len(),
        texts(parts)[i] == parts[i]@,
{
}

} // verus!
