//! File system paths as byte strings.
//!
//! Paths are Unix paths on every system: `/` alone separates the parts, and no
//! part is a drive or another prefix.
//!
//! A path is a list of parts between separators. Repeated separators, a
//! trailing separator and `.` parts add nothing, except for a `.` that opens a
//! relative path.

use vstd::prelude::*;

use crate::compact::{compact, compact_chars};
use crate::text::{same_bytes, text_from_bytes, utf8_lossy};
use compact_str::CompactString;

verus! {

/// A path, as the bytes that the operating system is given.
#[derive(Debug)]
pub struct FilePath {
    pub bytes: Vec<u8>,
}

impl View for FilePath {
    type V = Seq<u8>;

    open spec fn view(&self) -> Seq<u8> {
        self.bytes@
    }
}

/// Text as the operating system takes it: a program name or an argument.
#[derive(Debug, PartialEq, Eq)]
pub struct OsText {
    pub bytes: Vec<u8>,
}

impl View for OsText {
    type V = Seq<u8>;

    open spec fn view(&self) -> Seq<u8> {
        self.bytes@
    }
}

impl OsText {
    pub fn new(text: &str) -> (r: OsText)
        ensures
            r@ == vstd::utf8::encode_utf8(text@),
    {
        OsText { bytes: vstd::slice::slice_to_vec(text.as_bytes()) }
    }

    /// The text; invalid UTF-8 is replaced.
    pub fn to_text(&self) -> (r: String)
        ensures
            r@ == utf8_lossy(self@),
    {
        text_from_bytes(self.bytes.as_slice())
    }
}

impl Clone for OsText {
    fn clone(&self) -> (r: OsText)
        ensures
            r@ == self@,
    {
        let len: usize = self.bytes.len();
        let bytes = cut(&self.bytes, 0, len);
        assert(bytes@ == self@);
        OsText { bytes }
    }
}

/// The separator `/`.
pub const SEPARATOR: u8 = 47;

/// The byte of `.`.
pub const DOT: u8 = 46;

/// The position of the last separator, or -1.
pub open spec fn last_separator(s: Seq<u8>) -> int
    decreases s.len(),
{
    if s.len() == 0 {
        -1
    } else if s.last() == SEPARATOR {
        s.len() - 1
    } else {
        last_separator(s.drop_last())
    }
}

/// Whether the text after the last separator adds no part to the path.
pub open spec fn adds_nothing(tail: Seq<u8>) -> bool {
    tail.len() == 0 || tail == seq![DOT]
}

/// The path without the separators and `.` parts at its end.
pub open spec fn trimmed(s: Seq<u8>) -> Seq<u8>
    decreases s.len(),
{
    let i = last_separator(s);
    if 0 <= i < s.len() && adds_nothing(s.skip(i + 1)) {
        if i == 0 {
            s.take(1)
        } else {
            trimmed(s.take(i))
        }
    } else {
        s
    }
}

/// Whether the path starts at the root of the file system.
pub open spec fn is_rooted(s: Seq<u8>) -> bool {
    s.len() > 0 && s[0] == SEPARATOR
}

/// Whether a trimmed path has no parts: it is empty or the root.
pub open spec fn is_bare(t: Seq<u8>) -> bool {
    t.len() == 0 || t == seq![SEPARATOR]
}

/// The parts of a path, in order.
pub open spec fn parts(s: Seq<u8>) -> Seq<Seq<u8>>
    decreases s.len(),
    via parts_decreases
{
    let t = trimmed(s);
    let i = last_separator(t);
    if is_bare(t) {
        Seq::empty()
    } else if i <= 0 {
        seq![t.skip(i + 1)]
    } else {
        parts(t.take(i)).push(t.skip(i + 1))
    }
}

#[via_fn]
proof fn parts_decreases(s: Seq<u8>) {
    lemma_trimmed(s);
    lemma_last_separator(trimmed(s));
}

/// Two paths name the same place when they start alike and have the same parts.
pub open spec fn same_place(a: Seq<u8>, b: Seq<u8>) -> bool {
    is_rooted(a) == is_rooted(b) && parts(a) == parts(b)
}

/// The path without its last part; the root and the empty path have none to take away.
pub open spec fn parent_of(s: Seq<u8>) -> Option<Seq<u8>> {
    let t = trimmed(s);
    let i = last_separator(t);
    if is_bare(t) {
        None
    } else if i < 0 {
        Some(Seq::empty())
    } else if i == 0 {
        Some(t.take(1))
    } else {
        Some(trimmed(t.take(i)))
    }
}

/// The last part of the path, unless it is `.` or `..`.
pub open spec fn file_name_of(s: Seq<u8>) -> Option<Seq<u8>> {
    let t = trimmed(s);
    let name = t.skip(last_separator(t) + 1);
    if is_bare(t) || name == seq![DOT] || name == seq![DOT, DOT] {
        None
    } else {
        Some(name)
    }
}

/// The name under which a path is shown: its file name, or the whole path where it has none.
pub open spec fn shown_name(s: Seq<u8>) -> Seq<char> {
    match file_name_of(s) {
        Some(name) => utf8_lossy(name),
        None => utf8_lossy(s),
    }
}

/// `name` below the directory `dir`; a rooted `name` replaces it.
pub open spec fn joined(dir: Seq<u8>, name: Seq<u8>) -> Seq<u8> {
    if is_rooted(name) || dir.len() == 0 {
        name
    } else if dir.last() == SEPARATOR {
        dir + name
    } else {
        dir.push(SEPARATOR) + name
    }
}

proof fn lemma_last_separator(s: Seq<u8>)
    ensures
        -1 <= last_separator(s) < s.len(),
        last_separator(s) >= 0 ==> s[last_separator(s)] == SEPARATOR,
        forall|j: int| last_separator(s) < j < s.len() ==> s[j] != SEPARATOR,
    decreases s.len(),
{
    if s.len() > 0 && s.last() != SEPARATOR {
        lemma_last_separator(s.drop_last());
        assert forall|j: int| last_separator(s) < j < s.len() implies s[j] != SEPARATOR by {
            if j < s.len() - 1 {
                assert(s.drop_last()[j] == s[j]);
            }
        }
    }
}

/// The last separator is determined by being a separator with none after it.
proof fn lemma_last_separator_at(s: Seq<u8>, i: int)
    requires
        0 <= i < s.len(),
        s[i] == SEPARATOR,
        forall|j: int| i < j < s.len() ==> s[j] != SEPARATOR,
    ensures
        last_separator(s) == i,
{
    lemma_last_separator(s);
}

proof fn lemma_trimmed(s: Seq<u8>)
    ensures
        trimmed(s).is_prefix_of(s),
        trimmed(trimmed(s)) == trimmed(s),
        is_rooted(trimmed(s)) == is_rooted(s),
    decreases s.len(),
{
    let i = last_separator(s);
    lemma_last_separator(s);
    if 0 <= i < s.len() && adds_nothing(s.skip(i + 1)) {
        if i == 0 {
            let r = s.take(1);
            assert(r[0] == SEPARATOR);
            assert(r.last() == SEPARATOR);
            assert(last_separator(r) == 0);
            assert(r.skip(1).len() == 0);
            assert(r.take(1) == r);
        } else {
            lemma_trimmed(s.take(i));
        }
    }
}

/// The bytes of each part of a list.
pub open spec fn byte_strings(list: Seq<Vec<u8>>) -> Seq<Seq<u8>> {
    list.map_values(|v: Vec<u8>| v@)
}

/// `bytes[from..to]` as a byte string of its own.
fn cut(bytes: &Vec<u8>, from: usize, to: usize) -> (r: Vec<u8>)
    requires
        from <= to <= bytes.len(),
    ensures
        r@ == bytes@.subrange(from as int, to as int),
{
    let mut r: Vec<u8> = Vec::new();
    let mut i: usize = from;
    while i < to
        invariant
            from <= i <= to <= bytes.len(),
            r@ == bytes@.subrange(from as int, i as int),
        decreases to - i,
    {
        r.push(bytes[i]);
        i += 1;
    }
    r
}

/// The position behind the last separator of the first `len` bytes; 0 where there is none.
fn tail_start(bytes: &Vec<u8>, len: usize) -> (r: usize)
    requires
        len <= bytes.len(),
    ensures
        r <= len,
        r == last_separator(bytes@.take(len as int)) + 1,
{
    let mut i: usize = len;
    while i > 0 && bytes[i - 1] != SEPARATOR
        invariant
            i <= len <= bytes.len(),
            last_separator(bytes@.take(len as int)) == last_separator(bytes@.take(i as int)),
        decreases i,
    {
        assert(bytes@.take(i as int).drop_last() == bytes@.take(i - 1));
        i -= 1;
    }
    i
}

/// The length to which trimming cuts the first `len` bytes.
fn trimmed_len(bytes: &Vec<u8>, len: usize) -> (r: usize)
    requires
        len <= bytes.len(),
    ensures
        r <= len,
        trimmed(bytes@.take(len as int)) == bytes@.take(r as int),
    decreases len,
{
    let start: usize = tail_start(bytes, len);
    let ghost s = bytes@.take(len as int);
    assert(s.skip(start as int) == bytes@.subrange(start as int, len as int));
    if start > 0 && (start == len || (start + 1 == len && bytes[start] == DOT)) {
        proof {
            if start + 1 == len {
                assert(s.skip(start as int) == seq![DOT]);
            }
        }
        if start == 1 {
            assert(s.take(1) == bytes@.take(1));
            1
        } else {
            assert(s.take(start - 1) == bytes@.take(start - 1));
            trimmed_len(bytes, start - 1)
        }
    } else {
        proof {
            if s.skip(start as int) == seq![DOT] {
                assert(s.skip(start as int).len() == 1);
                assert(s.skip(start as int)[0] == DOT);
            }
        }
        len
    }
}

/// The parts of the first `len` bytes.
fn parts_up_to(bytes: &Vec<u8>, len: usize) -> (r: Vec<Vec<u8>>)
    requires
        len <= bytes.len(),
    ensures
        byte_strings(r@) == parts(bytes@.take(len as int)),
    decreases len,
{
    let end: usize = trimmed_len(bytes, len);
    let ghost t = bytes@.take(end as int);
    let start: usize = tail_start(bytes, end);
    if bare(bytes, end) {
        let r: Vec<Vec<u8>> = Vec::new();
        assert(byte_strings(r@) == parts(bytes@.take(len as int)));
        return r;
    }
    assert(t.skip(start as int) == bytes@.subrange(start as int, end as int));
    let mut r: Vec<Vec<u8>> = Vec::new();
    if start > 1 {
        assert(t.take(start - 1) == bytes@.take(start - 1));
        r = parts_up_to(bytes, start - 1);
    }
    let part = cut(bytes, start, end);
    assert(byte_strings(r@.push(part)) == byte_strings(r@).push(part@));
    r.push(part);
    assert(byte_strings(r@) == parts(bytes@.take(len as int)));
    r
}

/// Whether the first `end` bytes are empty or the root.
fn bare(bytes: &Vec<u8>, end: usize) -> (r: bool)
    requires
        end <= bytes.len(),
    ensures
        r == is_bare(bytes@.take(end as int)),
{
    let ghost t = bytes@.take(end as int);
    let r: bool = end == 0 || (end == 1 && bytes[0] == SEPARATOR);
    proof {
        if r && end == 1 {
            assert(t == seq![SEPARATOR]);
        }
        if t == seq![SEPARATOR] {
            assert(t.len() == 1);
            assert(t[0] == SEPARATOR);
        }
    }
    r
}

impl FilePath {
    /// The path as an argument of a program.
    pub fn to_os_text(&self) -> (r: OsText)
        ensures
            r@ == self@,
    {
        let len: usize = self.bytes.len();
        let bytes = cut(&self.bytes, 0, len);
        assert(bytes@ == self@);
        OsText { bytes }
    }

    /// The path with the bytes of `text`.
    pub fn new(text: &str) -> (r: FilePath)
        ensures
            r@ == vstd::utf8::encode_utf8(text@),
    {
        FilePath { bytes: vstd::slice::slice_to_vec(text.as_bytes()) }
    }

    /// The parts of the path, in order.
    pub fn parts(&self) -> (r: Vec<Vec<u8>>)
        ensures
            byte_strings(r@) == parts(self@),
    {
        let len: usize = self.bytes.len();
        assert(self.bytes@.take(len as int) == self@);
        parts_up_to(&self.bytes, len)
    }

    pub fn rooted(&self) -> (r: bool)
        ensures
            r == is_rooted(self@),
    {
        self.bytes.len() > 0 && self.bytes[0] == SEPARATOR
    }

    /// Whether the two paths name the same place.
    pub fn same_place(&self, other: &FilePath) -> (r: bool)
        ensures
            r == same_place(self@, other@),
    {
        if self.rooted() != other.rooted() {
            return false;
        }
        let a = self.parts();
        let b = other.parts();
        let ghost x = parts(self@);
        let ghost y = parts(other@);
        if a.len() != b.len() {
            assert(x.len() != y.len());
            return false;
        }
        let mut i: usize = 0;
        while i < a.len()
            invariant
                i <= a.len(),
                a.len() == b.len(),
                byte_strings(a@) == x,
                byte_strings(b@) == y,
                x == parts(self@),
                y == parts(other@),
                forall|j: int| 0 <= j < i ==> x[j] == y[j],
            decreases a.len() - i,
        {
            if !same_bytes(a[i].as_slice(), b[i].as_slice()) {
                assert(x[i as int] != y[i as int]);
                return false;
            }
            assert(x[i as int] == y[i as int]);
            i += 1;
        }
        assert(x == y);
        true
    }

    /// The path without its last part.
    pub fn parent(&self) -> (r: Option<FilePath>)
        ensures
            r is Some == parent_of(self@) is Some,
            r matches Some(p) ==> p@ == parent_of(self@)->0,
    {
        let len: usize = self.bytes.len();
        assert(self.bytes@.take(len as int) == self@);
        let end: usize = trimmed_len(&self.bytes, len);
        if bare(&self.bytes, end) {
            return None;
        }
        let start: usize = tail_start(&self.bytes, end);
        let ghost t = self.bytes@.take(end as int);
        let mut keep: usize = start;
        if start > 1 {
            assert(t.take(start - 1) == self.bytes@.take(start - 1));
            keep = trimmed_len(&self.bytes, start - 1);
        }
        proof {
            assert(self.bytes@.subrange(0, keep as int) == self.bytes@.take(keep as int));
            if start == 1 {
                assert(t.take(1) == self.bytes@.take(1));
            }
            if start == 0 {
                assert(self.bytes@.take(0) == Seq::<u8>::empty());
            }
        }
        Some(FilePath { bytes: cut(&self.bytes, 0, keep) })
    }

    /// The last part of the path, unless it is `.` or `..`.
    pub fn file_name(&self) -> (r: Option<Vec<u8>>)
        ensures
            r is Some == file_name_of(self@) is Some,
            r matches Some(n) ==> n@ == file_name_of(self@)->0,
    {
        let len: usize = self.bytes.len();
        assert(self.bytes@.take(len as int) == self@);
        let end: usize = trimmed_len(&self.bytes, len);
        if bare(&self.bytes, end) {
            return None;
        }
        let start: usize = tail_start(&self.bytes, end);
        let ghost t = self.bytes@.take(end as int);
        assert(t.skip(start as int) == self.bytes@.subrange(start as int, end as int));
        let name = cut(&self.bytes, start, end);
        let dots: bool = (name.len() == 1 && name[0] == DOT) || (name.len() == 2 && name[0] == DOT
            && name[1] == DOT);
        proof {
            if dots {
                assert(name@ == seq![DOT] || name@ == seq![DOT, DOT]);
            } else {
                assert(seq![DOT][0] == DOT && seq![DOT].len() == 1);
                assert(seq![DOT, DOT][0] == DOT && seq![DOT, DOT][1] == DOT);
                assert(seq![DOT, DOT].len() == 2);
                assert(name@ != seq![DOT] && name@ != seq![DOT, DOT]);
            }
        }
        if dots {
            None
        } else {
            Some(name)
        }
    }

    /// The whole path as text; invalid UTF-8 is replaced.
    pub fn to_text(&self) -> (r: String)
        ensures
            r@ == utf8_lossy(self@),
    {
        text_from_bytes(self.bytes.as_slice())
    }

    /// The name under which the path is shown.
    pub fn shown_name(&self) -> (r: CompactString)
        ensures
            compact_chars(r) == shown_name(self@),
    {
        match self.file_name() {
            Some(name) => compact(text_from_bytes(name.as_slice()).as_str()),
            None => compact(self.to_text().as_str()),
        }
    }

    /// `name` below this directory.
    pub fn join(&self, name: &str) -> (r: FilePath)
        ensures
            r@ == joined(self@, vstd::utf8::encode_utf8(name@)),
    {
        let tail = vstd::slice::slice_to_vec(name.as_bytes());
        let len: usize = self.bytes.len();
        if len == 0 || (tail.len() > 0 && tail[0] == SEPARATOR) {
            return FilePath { bytes: tail };
        }
        let mut bytes = cut(&self.bytes, 0, len);
        assert(bytes@ == self@);
        if bytes[len - 1] != SEPARATOR {
            bytes.push(SEPARATOR);
        }
        let mut tail = tail;
        bytes.append(&mut tail);
        FilePath { bytes }
    }
}

impl Clone for FilePath {
    fn clone(&self) -> (r: FilePath)
        ensures
            r@ == self@,
    {
        let len: usize = self.bytes.len();
        let bytes = cut(&self.bytes, 0, len);
        assert(bytes@ == self@);
        FilePath { bytes }
    }
}

impl PartialEq for FilePath {
    fn eq(&self, other: &FilePath) -> (r: bool) {
        self.same_place(other)
    }
}

impl vstd::std_specs::cmp::PartialEqSpecImpl for FilePath {
    open spec fn obeys_eq_spec() -> bool {
        true
    }

    open spec fn eq_spec(&self, other: &FilePath) -> bool {
        same_place(self@, other@)
    }
}

impl Eq for FilePath {

}

/// Going up takes away exactly the last part.
pub proof fn parent_drops_the_last_part(s: Seq<u8>)
    ensures
        parent_of(s) is Some == (parts(s).len() > 0),
        parent_of(s) matches Some(p) ==> parts(p) == parts(s).drop_last() && is_rooted(p)
            == is_rooted(s),
{
    let t = trimmed(s);
    let i = last_separator(t);
    lemma_trimmed(s);
    lemma_last_separator(t);
    if !is_bare(t) {
        assert(parts(s).drop_last() == if i <= 0 {
            Seq::empty()
        } else {
            parts(t.take(i))
        });
        if i < 0 {
            assert(trimmed(Seq::<u8>::empty()) == Seq::<u8>::empty());
            assert(parts(Seq::<u8>::empty()) == Seq::<Seq<u8>>::empty());
            if is_rooted(s) {
                assert(t[0] == SEPARATOR);
            }
        } else if i == 0 {
            let r = t.take(1);
            assert(r == seq![SEPARATOR]);
            assert(r.last() == SEPARATOR);
            assert(last_separator(r) == 0);
            assert(r.take(1) == r);
            assert(parts(r) == Seq::<Seq<u8>>::empty());
        } else {
            lemma_trimmed(t.take(i));
        }
    }
}

/// A file name is the last part of its path.
pub proof fn file_name_is_the_last_part(s: Seq<u8>)
    ensures
        file_name_of(s) matches Some(n) ==> parts(s).len() > 0 && n == parts(s).last(),
{
}

/// Going up from a child leads back to the directory.
pub proof fn parent_of_a_child_is_the_directory(dir: Seq<u8>, name: Seq<u8>)
    requires
        dir.len() > 0,
        !adds_nothing(name),
        forall|j: int| 0 <= j < name.len() ==> name[j] != SEPARATOR,
    ensures
        parts(joined(dir, name)) == parts(dir).push(name),
        parent_of(joined(dir, name)) matches Some(p) && same_place(p, dir),
{
    let s = joined(dir, name);
    let base = if dir.last() == SEPARATOR {
        dir
    } else {
        dir.push(SEPARATOR)
    };
    let i = base.len() - 1;
    assert(s == base + name);
    assert(s[i] == SEPARATOR);
    assert forall|j: int| i < j < s.len() implies s[j] != SEPARATOR by {
        assert(s[j] == name[j - base.len()]);
    }
    lemma_last_separator_at(s, i);
    assert(s.skip(i + 1) == name);
    assert(trimmed(s) == s);
    assert(s.len() >= 2);
    parent_drops_the_last_part(s);
    lemma_trimmed(dir);
    if i > 0 {
        let up = s.take(i);
        if dir.last() == SEPARATOR {
            lemma_last_separator_at(dir, i);
            assert(dir.take(i) == up);
            assert(dir.skip(i + 1).len() == 0);
            assert(trimmed(dir) == trimmed(up));
            lemma_trimmed(up);
        } else {
            assert(up == dir);
        }
        assert(parts(up) == parts(dir));
        assert(parts(s) == parts(up).push(name));
    } else {
        assert(dir == seq![SEPARATOR]);
        assert(dir.last() == SEPARATOR);
        assert(last_separator(dir) == 0);
        assert(dir.take(1) == dir);
        assert(parts(dir) == Seq::<Seq<u8>>::empty());
        assert(parts(s) == seq![name]);
    }
    assert(parts(s).drop_last() == parts(dir));
    assert(is_rooted(s) == is_rooted(dir));
}

/// A path is read part by part: behind a further separator an empty part or a `.` adds nothing,
/// and anything else is one more part. A path without a separator is a single part, unless it is
/// empty. This says what the parts of any path are, and whether it starts at the root.
pub proof fn parts_are_read_one_by_one(s: Seq<u8>, part: Seq<u8>)
    requires
        forall|j: int| 0 <= j < part.len() ==> #[trigger] part[j] != 47,
    ensures
        part.len() == 0 || part == seq![46u8] ==> parts(s.push(47) + part) == parts(s),
        part.len() > 0 && part != seq![46u8] ==> parts(s.push(47) + part) == parts(s).push(part),
        part.len() == 0 ==> parts(part).len() == 0,
        part.len() > 0 ==> parts(part) == seq![part],
        is_rooted(s.push(47) + part) == (s.len() == 0 || is_rooted(s)),
        !is_rooted(part),
{
    let t = s.push(47) + part;
    let i = s.len() as int;
    assert(t[i] == SEPARATOR);
    assert forall|j: int| i < j < t.len() implies t[j] != SEPARATOR by {
        assert(t[j] == part[j - i - 1]);
    }
    lemma_last_separator_at(t, i);
    assert(t.skip(i + 1) == part);
    assert(t.take(i) == s);
    lemma_last_separator(part);
    if last_separator(part) >= 0 {
        assert(part[last_separator(part)] == 47);
    }
    assert(trimmed(part) == part);
    assert(part.skip(0) == part);
    if part == seq![SEPARATOR] {
        assert(part[0] == 47);
    }
    assert(trimmed(Seq::<u8>::empty()) == Seq::<u8>::empty());
    assert(parts(Seq::<u8>::empty()) == Seq::<Seq<u8>>::empty());
    if part.len() == 0 || part == seq![46u8] {
        if i == 0 {
            assert(s == Seq::<u8>::empty());
            assert(t.take(1) == seq![SEPARATOR]);
            assert(is_bare(trimmed(t)));
        } else {
            assert(trimmed(t) == trimmed(s));
        }
    } else {
        assert(trimmed(t) == t);
        assert(t.len() >= 2);
        if i == 0 {
            assert(s == Seq::<u8>::empty());
            assert(parts(t) == seq![part]);
        }
    }
    if s.len() > 0 {
        assert(t[0] == s[0]);
    }
    if part.len() > 0 {
        assert(part[0] != 47);
    }
}

/// The file name of a path is its last part, unless there is none or it is `.` or `..`.
pub proof fn file_names_are_last_parts(s: Seq<u8>)
    ensures
        file_name_of(s) == (if parts(s).len() == 0 || parts(s).last() == seq![46u8]
            || parts(s).last() == seq![46u8, 46u8] {
            None::<Seq<u8>>
        } else {
            Some(parts(s).last())
        }),
{
    let t = trimmed(s);
    lemma_trimmed(s);
    lemma_last_separator(t);
}

/// The parent of a path is spelled as the path itself, cut off, and ends in neither a separator
/// nor a `.` part unless it is nothing else.
pub proof fn parents_are_spelled_alike(s: Seq<u8>)
    ensures
        parent_of(s) matches Some(p) ==> {
            &&& p.is_prefix_of(s)
            &&& p.len() > 1 ==> p.last() != 47 && !(p.last() == 46 && p[p.len() - 2] == 47)
        },
{
    let t = trimmed(s);
    lemma_trimmed(s);
    lemma_last_separator(t);
    if let Some(p) = parent_of(s) {
        let i = last_separator(t);
        if i > 0 {
            lemma_trimmed(t.take(i));
            lemma_last_separator(p);
            let k = last_separator(p);
            if p.len() > 1 && p.last() == 47 {
                assert(k == p.len() - 1);
                assert(p.skip(k + 1).len() == 0);
                lemma_trimmed(p.take(k));
                assert(trimmed(p).len() < p.len());
            } else if p.len() > 1 && p.last() == 46 && p[p.len() - 2] == 47 {
                lemma_last_separator_at(p, p.len() - 2);
                assert(p.skip(p.len() - 1) == seq![DOT]);
                lemma_trimmed(p.take(p.len() - 2));
                assert(trimmed(p).len() < p.len());
            }
        }
    }
}

/// Two paths name the same place if and only if both or neither start at the root and their parts
/// are the same.
pub proof fn places_are_equal_by_their_parts(a: Seq<u8>, b: Seq<u8>)
    ensures
        same_place(a, b) == (is_rooted(a) == is_rooted(b) && parts(a) == parts(b)),
        is_rooted(a) == (a.len() > 0 && a[0] == 47),
{
}

/// A name is put behind the directory, with one separator between them unless the directory ends
/// in one; a name that starts at the root, or a directory that is empty, leaves the name alone.
pub proof fn names_are_put_behind_the_directory(dir: Seq<u8>, name: Seq<u8>)
    ensures
        name.len() > 0 && name[0] == 47 ==> joined(dir, name) == name,
        dir.len() == 0 ==> joined(dir, name) == name,
        dir.len() > 0 && !(name.len() > 0 && name[0] == 47) ==> joined(dir, name) == (if dir.last()
            == 47 {
            dir
        } else {
            dir.push(47)
        }) + name,
{
}

/// A path is shown by its file name, and whole where it has none.
pub proof fn paths_are_shown_by_their_file_name(s: Seq<u8>)
    ensures
        file_name_of(s) matches Some(name) ==> shown_name(s) == utf8_lossy(name),
        file_name_of(s) is None ==> shown_name(s) == utf8_lossy(s),
{
}

} // verus!
