//! Paths. How a path is taken apart is up to the host, so the rest of the library works on a path
//! whose parts are known, whatever they are.
//!
//! For hosts on which paths are separated by `/` and by nothing else the parts are found here: the
//! last component, its stem and extension, and the directory it is in. Repeated separators and
//! `.` components do not count, except for a `.` at the very start, which is a component of its
//! own.

use vstd::prelude::*;
use vstd::string::*;

use crate::text::{from_chars, to_chars};

verus! {

/// A path and its parts, as the host takes it apart: the directory it is in, and the stem and the
/// extension of its last component, each of which may be missing.
#[derive(Debug)]
pub struct HostPath {
    pub text: String,
    pub parent: Option<String>,
    pub file_stem: Option<String>,
    pub extension: Option<String>,
}

/// A path and its parts as sequences of characters.
#[verifier::ext_equal]
pub struct PathView {
    pub text: Seq<char>,
    pub parent: Option<Seq<char>>,
    pub file_stem: Option<Seq<char>>,
    pub extension: Option<Seq<char>>,
}

/// The text of an optional string.
pub open spec fn part(text: Option<String>) -> Option<Seq<char>> {
    match text {
        Some(t) => Some(t@),
        None => None,
    }
}

impl View for HostPath {
    type V = PathView;

    open spec fn view(&self) -> PathView {
        PathView {
            text: self.text@,
            parent: part(self.parent),
            file_stem: part(self.file_stem),
            extension: part(self.extension),
        }
    }
}

/// Whether the path begins with a `.` component.
pub open spec fn starts_here(p: Seq<char>) -> bool {
    p.len() > 0 && p[0] == '.' && (p.len() == 1 || p[1] == '/')
}

/// How many leading characters belong to the root or to an initial `.`.
pub open spec fn body_start(p: Seq<char>) -> int {
    if (p.len() > 0 && p[0] == '/') || starts_here(p) {
        1
    } else {
        0
    }
}

/// Where the last segment begins: behind the last `/` at or after `start`, or at `start`.
pub open spec fn tail_start(p: Seq<char>, start: int) -> int
    decreases p.len(),
{
    if p.len() <= start || p.len() == 0 {
        start
    } else if p.last() == '/' {
        p.len() as int
    } else {
        tail_start(p.drop_last(), start)
    }
}

/// The last segment of a path.
pub open spec fn tail(p: Seq<char>) -> Seq<char> {
    p.skip(tail_start(p, body_start(p)))
}

/// The path without its last segment and the separator before it.
pub open spec fn cut_tail(p: Seq<char>) -> Seq<char> {
    let s = tail_start(p, body_start(p));
    if s > body_start(p) {
        p.take(s - 1)
    } else {
        p.take(body_start(p))
    }
}

/// Whether a segment names nothing: it is empty or `.`.
pub open spec fn is_idle(segment: Seq<char>) -> bool {
    segment.len() == 0 || segment == seq!['.']
}

/// The path without trailing separators and trailing `.` segments.
pub open spec fn settled(p: Seq<char>) -> Seq<char>
    decreases p.len(),
{
    if p.len() <= body_start(p) {
        p
    } else if is_idle(tail(p)) {
        proof {
            lemma_tail_start(p, body_start(p));
        }
        settled(cut_tail(p))
    } else {
        p
    }
}

/// The last component, when it is a name and not the root, `.` or `..`.
pub open spec fn file_name(p: Seq<char>) -> Option<Seq<char>> {
    let q = settled(p);
    if q.len() <= body_start(q) || tail(q) == seq!['.', '.'] {
        None
    } else {
        Some(tail(q))
    }
}

/// The path without its last component. The empty path and the root have none.
pub open spec fn parent(p: Seq<char>) -> Option<Seq<char>> {
    let q = settled(p);
    if q.len() > body_start(q) {
        Some(settled(cut_tail(q)))
    } else if starts_here(q) {
        Some(Seq::empty())
    } else {
        None
    }
}

/// Where the last `.` of a name is, when it is not the first character.
pub open spec fn last_dot(name: Seq<char>) -> Option<int>
    decreases name.len(),
{
    if name.len() <= 1 {
        None
    } else if name.last() == '.' {
        Some(name.len() - 1)
    } else {
        last_dot(name.drop_last())
    }
}

/// A name without its extension.
pub open spec fn stem_of(name: Seq<char>) -> Seq<char> {
    match last_dot(name) {
        Some(d) => name.take(d),
        None => name,
    }
}

/// What follows the last `.` of a name that has one after its first character.
pub open spec fn extension_of(name: Seq<char>) -> Option<Seq<char>> {
    match last_dot(name) {
        Some(d) => Some(name.skip(d + 1)),
        None => None,
    }
}

/// The stem of the last component.
pub open spec fn file_stem(p: Seq<char>) -> Option<Seq<char>> {
    match file_name(p) {
        Some(name) => Some(stem_of(name)),
        None => None,
    }
}

/// The extension of the last component.
pub open spec fn extension(p: Seq<char>) -> Option<Seq<char>> {
    match file_name(p) {
        Some(name) => extension_of(name),
        None => None,
    }
}

/// The path of `name` seen from `dir`: `name` itself when it is absolute.
pub open spec fn join(dir: Seq<char>, name: Seq<char>) -> Seq<char> {
    if name.len() > 0 && name[0] == '/' {
        name
    } else if dir.len() == 0 || dir.last() == '/' {
        dir + name
    } else {
        dir.push('/') + name
    }
}

/// A path and its parts on a host that separates paths by `/`.
pub open spec fn unix_path(p: Seq<char>) -> PathView {
    PathView { text: p, parent: parent(p), file_stem: file_stem(p), extension: extension(p) }
}

/// A name that is one path component: not empty, no separator, neither `.` nor `..`.
pub open spec fn is_plain_name(name: Seq<char>) -> bool {
    &&& name.len() > 0
    &&& !name.contains('/')
    &&& name != seq!['.']
    &&& name != seq!['.', '.']
}

/// The last segment begins behind the last separator, and holds none.
pub proof fn lemma_tail_start(p: Seq<char>, start: int)
    requires
        0 <= start <= p.len(),
    ensures
        start <= tail_start(p, start) <= p.len(),
        tail_start(p, start) > start ==> p[tail_start(p, start) - 1] == '/',
        forall|i: int| tail_start(p, start) <= i < p.len() ==> p[i] != '/',
    decreases p.len(),
{
    if p.len() > start && p.last() != '/' {
        lemma_tail_start(p.drop_last(), start);
        let s = tail_start(p, start);
        assert forall|i: int| s <= i < p.len() implies p[i] != '/' by {
            if i < p.len() - 1 {
                assert(p[i] == p.drop_last()[i]);
            }
        }
    }
}

/// Where the last segment begins is decided by where the last separator is.
proof fn lemma_tail_start_is(p: Seq<char>, start: int, s: int)
    requires
        0 <= start <= s <= p.len(),
        s > start ==> p[s - 1] == '/',
        forall|i: int| s <= i < p.len() ==> p[i] != '/',
    ensures
        tail_start(p, start) == s,
{
    lemma_tail_start(p, start);
    let t = tail_start(p, start);
    if t < s {
        assert(p[s - 1] != '/');
    }
    if s < t {
        assert(p[t - 1] != '/');
    }
}

/// Settling keeps a prefix, at least as long as the root or the initial `.`.
proof fn lemma_settled(p: Seq<char>)
    ensures
        settled(p).len() <= p.len(),
        settled(p) == p.take(settled(p).len() as int),
        settled(settled(p)) == settled(p),
        body_start(settled(p)) <= settled(p).len(),
        settled(p).len() > body_start(settled(p)) ==> !is_idle(tail(settled(p))),
    decreases p.len(),
{
    lemma_tail_start(p, body_start(p));
    if p.len() > body_start(p) && is_idle(tail(p)) {
        lemma_settled(cut_tail(p));
        let n = settled(p).len() as int;
        assert(cut_tail(p).take(n) =~= p.take(n));
    } else {
        assert(p.take(p.len() as int) =~= p);
    }
}

/// The first `n` characters of a path, as a sequence.
spec fn prefix(p: Seq<char>, n: usize) -> Seq<char> {
    p.take(n as int)
}

/// `body_start` of the first `n` characters.
fn body_start_at(p: &[char], n: usize) -> (start: usize)
    requires
        n <= p@.len(),
    ensures
        start == body_start(prefix(p@, n)),
        start <= n,
{
    if n > 0 && (p[0] == '/' || (p[0] == '.' && (n == 1 || p[1] == '/'))) {
        1
    } else {
        0
    }
}

/// `tail_start` of the first `n` characters.
fn tail_start_at(p: &[char], n: usize, start: usize) -> (s: usize)
    requires
        start <= n <= p@.len(),
    ensures
        s == tail_start(prefix(p@, n), start as int),
        start <= s <= n,
{
    let mut s: usize = n;
    while s > start && p[s - 1] != '/'
        invariant
            start <= s <= n <= p@.len(),
            forall|i: int| s <= i < n ==> p@[i] != '/',
        decreases s,
    {
        s -= 1;
    }
    proof {
        lemma_tail_start_is(prefix(p@, n), start as int, s as int);
    }
    s
}

/// How many characters of the first `n` remain once they are settled.
fn settled_len(p: &[char], n: usize) -> (len: usize)
    requires
        n <= p@.len(),
    ensures
        len <= n,
        prefix(p@, len) == settled(prefix(p@, n)),
{
    let mut len: usize = n;
    loop
        invariant
            len <= n <= p@.len(),
            settled(prefix(p@, len)) == settled(prefix(p@, n)),
        ensures
            len <= n <= p@.len(),
            prefix(p@, len) == settled(prefix(p@, n)),
        decreases len,
    {
        let start: usize = body_start_at(p, len);
        let ghost q = prefix(p@, len);
        if len <= start {
            break;
        }
        let s: usize = tail_start_at(p, len, start);
        assert(tail(q) =~= p@.subrange(s as int, len as int));
        let idle: bool = s == len || (s + 1 == len && p[s] == '.');
        proof {
            if idle && s < len {
                assert(tail(q) =~= seq!['.']);
            }
            if !idle {
                assert(tail(q).len() == len - s);
                if tail(q) == seq!['.'] {
                    assert(tail(q)[0] == p@[s as int]);
                }
            }
        }
        if !idle {
            break;
        }
        let cut: usize = if s > start {
            s - 1
        } else {
            start
        };
        assert(cut_tail(q) =~= prefix(p@, cut));
        len = cut;
    }
    len
}

/// The characters from `from` up to `to`.
fn chars_between(p: &[char], from: usize, to: usize) -> (chars: Vec<char>)
    requires
        from <= to <= p@.len(),
    ensures
        chars@ == p@.subrange(from as int, to as int),
{
    let mut chars: Vec<char> = Vec::new();
    for i in from..to
        invariant
            from <= to <= p@.len(),
            chars@ =~= p@.subrange(from as int, i as int),
    {
        chars.push(p[i]);
    }
    chars
}

/// The last component of a path, as characters.
fn file_name_chars(p: &[char]) -> (name: Option<Vec<char>>)
    ensures
        match name {
            Some(n) => file_name(p@) == Some(n@),
            None => file_name(p@) is None,
        },
{
    let n: usize = p.len();
    let len: usize = settled_len(p, n);
    let start: usize = body_start_at(p, len);
    let ghost q = prefix(p@, len);
    assert(prefix(p@, n) =~= p@);
    if len <= start {
        return None;
    }
    let s: usize = tail_start_at(p, len, start);
    let name: Vec<char> = chars_between(p, s, len);
    assert(tail(q) =~= name@);
    if name.len() == 2 && name[0] == '.' && name[1] == '.' {
        assert(tail(q) =~= seq!['.', '.']);
        return None;
    }
    assert(tail(q) != seq!['.', '.']);
    Some(name)
}

/// `last_dot` of a name.
fn last_dot_at(name: &[char]) -> (dot: Option<usize>)
    ensures
        match dot {
            Some(d) => last_dot(name@) == Some(d as int) && d < name@.len(),
            None => last_dot(name@) is None,
        },
{
    let mut i: usize = name.len();
    assert(name@.take(i as int) =~= name@);
    while i > 1
        invariant
            i <= name@.len(),
            last_dot(name@) == last_dot(name@.take(i as int)),
        decreases i,
    {
        assert(name@.take(i as int).drop_last() =~= name@.take(i - 1));
        if name[i - 1] == '.' {
            return Some(i - 1);
        }
        i -= 1;
    }
    None
}

/// The stem of a path's last component: the name without its extension.
pub fn path_file_stem(path: &str) -> (stem: Option<String>)
    ensures
        match stem {
            Some(s) => file_stem(path@) == Some(s@),
            None => file_stem(path@) is None,
        },
{
    let p: Vec<char> = to_chars(path);
    match file_name_chars(p.as_slice()) {
        Some(name) => {
            let end: usize = match last_dot_at(name.as_slice()) {
                Some(d) => d,
                None => name.len(),
            };
            let stem: Vec<char> = chars_between(name.as_slice(), 0, end);
            assert(stem@ =~= stem_of(name@));
            Some(from_chars(stem.as_slice()))
        },
        None => None,
    }
}

/// The extension of a path's last component, without the dot.
pub fn path_extension(path: &str) -> (ext: Option<String>)
    ensures
        match ext {
            Some(e) => extension(path@) == Some(e@),
            None => extension(path@) is None,
        },
{
    let p: Vec<char> = to_chars(path);
    match file_name_chars(p.as_slice()) {
        Some(name) => match last_dot_at(name.as_slice()) {
            Some(d) => {
                let end: usize = name.len();
                let ext: Vec<char> = chars_between(name.as_slice(), d + 1, end);
                assert(ext@ =~= name@.skip(d + 1));
                Some(from_chars(ext.as_slice()))
            },
            None => None,
        },
        None => None,
    }
}

/// The directory that a path's last component is in.
pub fn path_parent(path: &str) -> (dir: Option<String>)
    ensures
        match dir {
            Some(d) => parent(path@) == Some(d@),
            None => parent(path@) is None,
        },
{
    let chars: Vec<char> = to_chars(path);
    let p: &[char] = chars.as_slice();
    let n: usize = p.len();
    let len: usize = settled_len(p, n);
    let start: usize = body_start_at(p, len);
    let ghost q = prefix(p@, len);
    assert(prefix(p@, n) =~= p@);
    if len > start {
        let s: usize = tail_start_at(p, len, start);
        let cut: usize = if s > start {
            s - 1
        } else {
            start
        };
        assert(cut_tail(q) =~= prefix(p@, cut));
        let end: usize = settled_len(p, cut);
        let dir: Vec<char> = chars_between(p, 0, end);
        assert(dir@ =~= prefix(p@, end));
        Some(from_chars(dir.as_slice()))
    } else if len > 0 && p[0] == '.' {
        assert(len == 1);
        Some(String::new())
    } else {
        None
    }
}

/// The path of `name` seen from the directory `dir`.
pub fn path_join(dir: &str, name: &str) -> (path: String)
    ensures
        path@ == join(dir@, name@),
{
    let d: Vec<char> = to_chars(dir);
    let n: Vec<char> = to_chars(name);
    if n.len() > 0 && n[0] == '/' {
        return from_chars(n.as_slice());
    }
    let mut path: String = from_chars(d.as_slice());
    if d.len() > 0 && d[d.len() - 1] != '/' {
        path.push('/');
    }
    path.append(name);
    assert(path@ =~= join(dir@, name@));
    path
}

/// Takes a path apart on a host that separates paths by `/`.
pub fn read_unix_path(text: &str) -> (path: HostPath)
    ensures
        path@ == unix_path(text@),
{
    HostPath {
        text: text.to_owned(),
        parent: path_parent(text),
        file_stem: path_file_stem(text),
        extension: path_extension(text),
    }
}

/// A plain name joined to the directory of any path is in that directory, under that name.
pub proof fn law_join_is_in_directory(p: Seq<char>, name: Seq<char>)
    requires
        parent(p) is Some,
        is_plain_name(name),
    ensures
        file_name(join(parent(p)->0, name)) == Some(name),
        parent(join(parent(p)->0, name)) == parent(p),
{
    let d = parent(p)->0;
    let out = join(d, name);
    lemma_settled(p);
    lemma_settled(cut_tail(settled(p)));
    assert(settled(Seq::<char>::empty()) =~= Seq::<char>::empty());
    assert(settled(d) == d);
    lemma_settled(d);
    lemma_tail_start(d, body_start(d));
    assert(!name.contains('/'));
    assert(forall|i: int| 0 <= i < name.len() ==> name[i] != '/');
    let at = out.len() - name.len();
    assert(out.skip(at) =~= name);
    if d.len() == 0 {
        assert(out =~= name);
        assert(!starts_here(name)) by {
            if starts_here(name) {
                assert(name =~= seq!['.']);
            }
        }
        assert(body_start(out) == 0);
    } else {
        assert(forall|i: int| 0 <= i < d.len() ==> out[i] == d[i]);
        if d.last() == '/' {
            assert(d.len() == 1) by {
                if d.len() > 1 {
                    lemma_tail_start_is(d, body_start(d), d.len() as int);
                    assert(tail(d).len() == 0);
                }
            }
        }
        assert(body_start(out) == body_start(d));
    }
    assert(forall|i: int| at <= i < out.len() ==> out[i] == name[i - at]);
    lemma_tail_start_is(out, body_start(out), at);
    assert(tail(out) == name);
    assert(!is_idle(tail(out)));
    assert(settled(out) == out);
    assert(cut_tail(out) =~= d);
}

/// How a path is taken apart that ends in a separator and one more segment.
proof fn lemma_last_segment(p: Seq<char>, segment: Seq<char>)
    requires
        p.len() > 0,
        !segment.contains('/'),
    ensures
        ({
            let out = p.push('/') + segment;
            &&& body_start(out) <= 1
            &&& body_start(out) == body_start(p)
            &&& tail(out) == segment
            &&& cut_tail(out) == p
        }),
{
    let out = p.push('/') + segment;
    let at = p.len() + 1;
    assert(forall|i: int| 0 <= i < p.len() ==> out[i] == p[i]);
    assert(out[p.len() as int] == '/');
    assert forall|i: int| at <= i < out.len() implies out[i] != '/' by {
        assert(segment.contains(segment[i - at]));
    }
    lemma_tail_start_is(out, body_start(out), at as int);
    assert(out.skip(at as int) =~= segment);
    assert(out.take(p.len() as int) =~= p);
}

/// The last component of a path is the name behind its last separator, and what is before that is
/// the directory it is in. This holds for a name of any characters but a separator that is not
/// empty, `.` or `..`.
pub proof fn law_name_behind_the_last_separator(p: Seq<char>, name: Seq<char>)
    requires
        p.len() > 0,
        name.len() > 0,
        !name.contains('/'),
        name != seq!['.'],
        name != seq!['.', '.'],
    ensures
        file_name(p.push('/') + name) == Some(name),
        parent(p.push('/') + name) is Some,
        p == seq!['/'] || !(p.last() == '/' || (p.len() >= 2 && p.last() == '.' && p[p.len() - 2]
            == '/')) ==> parent(p.push('/') + name) == Some(p),
{
    let out = p.push('/') + name;
    lemma_last_segment(p, name);
    assert(settled(out) == out);
    if p == seq!['/'] {
        assert(settled(p) == p);
    } else if !(p.last() == '/' || (p.len() >= 2 && p.last() == '.' && p[p.len() - 2] == '/')) {
        let s = tail_start(p, body_start(p));
        lemma_tail_start(p, body_start(p));
        if p.len() > body_start(p) {
            assert(tail(p).len() == p.len() - s);
            if tail(p).len() == 0 {
                assert(p[s - 1] == '/');
            }
            if tail(p) == seq!['.'] {
                assert(tail(p)[0] == p[s]);
                assert(s == p.len() - 1);
                if s > body_start(p) {
                    assert(p[s - 1] == '/');
                } else if s == 1 {
                    assert(p[0] == '/' || p[0] == '.');
                    if p[0] == '.' {
                        assert(p[1] == '/');
                    }
                } else {
                    assert(p.len() == 1 && p[0] == '.');
                }
            }
        }
        assert(settled(p) == p);
    }
}

/// A path that is a name alone is in the directory with the empty path, and one behind the root is
/// in the root.
pub proof fn law_name_alone(name: Seq<char>)
    requires
        name.len() > 0,
        !name.contains('/'),
        name != seq!['.'],
        name != seq!['.', '.'],
    ensures
        file_name(name) == Some(name),
        parent(name) == Some(Seq::<char>::empty()),
        file_name(seq!['/'] + name) == Some(name),
        parent(seq!['/'] + name) == Some(seq!['/']),
{
    let none = Seq::<char>::empty();
    assert forall|i: int| 0 <= i < name.len() implies name[i] != '/' by {
        assert(name.contains(name[i]));
    }
    assert(!starts_here(name)) by {
        if starts_here(name) {
            assert(name =~= seq!['.']);
        }
    }
    lemma_tail_start_is(name, 0, 0);
    assert(name.skip(0) =~= name);
    assert(settled(name) == name);
    assert(cut_tail(name) =~= none);
    assert(settled(none) == none);
    let rooted = seq!['/'] + name;
    lemma_tail_start_is(rooted, 1, 1);
    assert(rooted.skip(1) =~= name);
    assert(settled(rooted) == rooted);
    assert(cut_tail(rooted) =~= seq!['/']);
    assert(settled(seq!['/']) == seq!['/']);
}

/// Separators and `.` segments at the end of a path do not count.
pub proof fn law_idle_ends_do_not_count(p: Seq<char>)
    requires
        p.len() > 0,
    ensures
        file_name(p.push('/')) == file_name(p),
        parent(p.push('/')) == parent(p),
        file_name(p.push('/').push('.')) == file_name(p),
        parent(p.push('/').push('.')) == parent(p),
{
    lemma_last_segment(p, Seq::empty());
    assert(p.push('/') + Seq::<char>::empty() =~= p.push('/'));
    assert(settled(p.push('/')) == settled(p));
    lemma_last_segment(p, seq!['.']);
    assert(p.push('/') + seq!['.'] =~= p.push('/').push('.'));
    assert(settled(p.push('/').push('.')) == settled(p));
}

/// A path that ends in `..` has no file name, and neither have the root and the empty path, which
/// are in no directory.
pub proof fn law_nameless_paths(p: Seq<char>, slashes: nat)
    ensures
        p.len() > 0 ==> file_name(p.push('/') + seq!['.', '.']) is None,
        file_name(seq!['.', '.']) is None,
        file_name(Seq::new(slashes, |i: int| '/')) is None,
        parent(Seq::new(slashes, |i: int| '/')) is None,
    decreases slashes,
{
    if p.len() > 0 {
        lemma_last_segment(p, seq!['.', '.']);
        assert(seq!['.', '.'].len() == 2);
        assert(settled(p.push('/') + seq!['.', '.']) == p.push('/') + seq!['.', '.']);
    }
    let up = seq!['.', '.'];
    lemma_tail_start_is(up, 0, 0);
    assert(up.skip(0) =~= up);
    let all = Seq::new(slashes, |i: int| '/');
    if slashes > 1 {
        let fewer = Seq::new((slashes - 1) as nat, |i: int| '/');
        law_nameless_paths(Seq::empty(), (slashes - 1) as nat);
        law_idle_ends_do_not_count(fewer);
        assert(fewer.push('/') =~= all);
    }
}

/// What follows the last dot of a name is its extension and what precedes it is its stem, unless
/// the dot is the first character.
pub proof fn law_extension_follows_the_last_dot(stem: Seq<char>, ext: Seq<char>)
    requires
        stem.len() > 0,
        !ext.contains('.'),
    ensures
        extension_of(stem.push('.') + ext) == Some(ext),
        stem_of(stem.push('.') + ext) == stem,
{
    let name = stem.push('.') + ext;
    lemma_dot_at(stem, ext);
    assert(name.skip(stem.len() as int + 1) =~= ext);
    assert(name.take(stem.len() as int) =~= stem);
}

/// Where the last dot is in a name with an extension.
proof fn lemma_dot_at(stem: Seq<char>, ext: Seq<char>)
    requires
        stem.len() > 0,
        !ext.contains('.'),
    ensures
        last_dot(stem.push('.') + ext) == Some(stem.len() as int),
    decreases ext.len(),
{
    let name = stem.push('.') + ext;
    if ext.len() == 0 {
        assert(name =~= stem.push('.'));
    } else {
        let fewer = ext.drop_last();
        assert forall|c: char| fewer.contains(c) implies ext.contains(c) by {
            let i = choose|i: int| 0 <= i < fewer.len() && fewer[i] == c;
            assert(ext[i] == c);
        }
        lemma_dot_at(stem, fewer);
        assert(ext.contains(ext.last()));
        assert(name.drop_last() =~= stem.push('.') + fewer);
    }
}

/// A name that holds no dot behind its first character has no extension, and is its own stem.
pub proof fn law_name_without_dot_has_no_extension(name: Seq<char>)
    requires
        forall|i: int| 0 < i < name.len() ==> name[i] != '.',
    ensures
        extension_of(name) is None,
        stem_of(name) == name,
    decreases name.len(),
{
    if name.len() > 1 {
        law_name_without_dot_has_no_extension(name.drop_last());
    }
}

/// The stem and the extension of a path are those of its last component.
pub proof fn law_stem_and_extension_are_of_the_name(p: Seq<char>)
    ensures
        file_name(p) is None ==> file_stem(p) is None && extension(p) is None,
        file_name(p) matches Some(name) ==> file_stem(p) == Some(stem_of(name)) && extension(p)
            == extension_of(name),
        unix_path(p).text == p,
        unix_path(p).parent == parent(p),
        unix_path(p).file_stem == file_stem(p),
        unix_path(p).extension == extension(p),
{
}

/// A name is joined to a directory with one separator between them, unless the directory is empty
/// or ends in one; an absolute name is kept.
pub proof fn law_joining(dir: Seq<char>, name: Seq<char>)
    ensures
        join(dir, seq!['/'] + name) == seq!['/'] + name,
        !(name.len() > 0 && name[0] == '/') ==> {
            &&& join(Seq::empty(), name) == name
            &&& join(dir.push('/'), name) == dir.push('/') + name
            &&& dir.len() > 0 && dir.last() != '/' ==> join(dir, name) == dir + seq!['/'] + name
        },
{
    assert(Seq::<char>::empty() + name =~= name);
    assert(dir + seq!['/'] =~= dir.push('/'));
}

/// What a path and its parts say is their texts; a part that is missing is missing.
pub proof fn law_parts_are_what_they_hold(path: HostPath)
    ensures
        path@.text == path.text@,
        path.parent matches Some(t) ==> path@.parent == Some(t@),
        path.parent is None ==> path@.parent is None,
        path.file_stem matches Some(t) ==> path@.file_stem == Some(t@),
        path.file_stem is None ==> path@.file_stem is None,
        path.extension matches Some(t) ==> path@.extension == Some(t@),
        path.extension is None ==> path@.extension is None,
{
}

} // verus!
