//! Unix paths, held as the bytes that spell them. A FirstMate home is a directory of shell scripts and
//! Herdr listens on a Unix socket, so paths are read by the rules of Unix throughout.

use vstd::prelude::*;
use vstd::utf8::encode_utf8;

use crate::encoding::{show, shown_text};

verus! {

/// A slash before everything else: the path does not depend on the current directory.
pub open spec fn absolute(path: Seq<u8>) -> bool {
    path.len() > 0 && path[0] == 0x2f
}

/// A first part that names the current directory. It is the only such part that counts.
pub open spec fn leading_dot(path: Seq<u8>) -> bool {
    path.len() > 0 && path[0] == 0x2e && (path.len() == 1 || path[1] == 0x2f)
}

/// How many bytes of `path` come before its first slash: all of them if there is none.
pub open spec fn before_slash(path: Seq<u8>) -> nat
    decreases path.len(),
{
    if path.len() == 0 || path[0] == 0x2f {
        0
    } else {
        1 + before_slash(path.skip(1))
    }
}

/// The parts between the slashes of `path` that are neither empty nor a single dot.
pub open spec fn named_parts(path: Seq<u8>) -> Seq<Seq<u8>>
    decreases path.len(),
{
    let n = before_slash(path);
    let head = path.take(n as int);
    if path.len() == 0 {
        Seq::empty()
    } else {
        let rest = if n < path.len() {
            named_parts(path.skip(n as int + 1))
        } else {
            Seq::empty()
        };
        if head.len() == 0 || head == seq![0x2eu8] {
            rest
        } else {
            seq![head] + rest
        }
    }
}

/// Two spellings of one path: the same root, the same leading dot and the same named parts.
pub open spec fn same_path(a: Seq<u8>, b: Seq<u8>) -> bool {
    &&& absolute(a) == absolute(b)
    &&& leading_dot(a) == leading_dot(b)
    &&& named_parts(a) == named_parts(b)
}

/// `name` looked up from `base`: the name itself if it is absolute, or else the two with a slash
/// between them unless `base` is empty or ends with one.
pub open spec fn joined_path(base: Seq<u8>, name: Seq<u8>) -> Seq<u8> {
    if absolute(name) {
        name
    } else if base.len() > 0 && base.last() != 0x2f {
        base.push(0x2f) + name
    } else {
        base + name
    }
}

/// A Unix path.
#[derive(Debug, Eq)]
pub struct FsPath {
    bytes: Vec<u8>,
}

impl View for FsPath {
    type V = Seq<u8>;

    closed spec fn view(&self) -> Seq<u8> {
        self.bytes@
    }
}

impl Clone for FsPath {
    fn clone(&self) -> (r: Self)
        ensures
            r@ == self@,
    {
        let bytes = self.bytes.clone();
        assert(bytes@ =~= self.bytes@);
        FsPath { bytes }
    }
}

proof fn lemma_before_slash(path: Seq<u8>, k: int)
    requires
        0 <= k <= path.len(),
        forall|j: int| 0 <= j < k ==> #[trigger] path[j] != 0x2f,
        k < path.len() ==> path[k] == 0x2f,
    ensures
        before_slash(path) == k,
    decreases k,
{
    if k > 0 {
        assert(path[0] != 0x2f);
        lemma_before_slash(path.skip(1), k - 1);
    }
}

/// The bytes of `bytes` from place `from` up to place `to`.
fn bytes_between(bytes: &Vec<u8>, from: usize, to: usize) -> (r: Vec<u8>)
    requires
        from <= to <= bytes@.len(),
    ensures
        r@ == bytes@.subrange(from as int, to as int),
{
    let mut out: Vec<u8> = Vec::new();
    let mut i: usize = from;
    while i < to
        invariant
            from <= i <= to <= bytes@.len(),
            out@ == bytes@.subrange(from as int, i as int),
        decreases to - i,
    {
        out.push(bytes[i]);
        i += 1;
        assert(out@ =~= bytes@.subrange(from as int, i as int));
    }
    out
}

/// The bytes of each part of a list.
spec fn part_bytes(parts: Seq<Vec<u8>>) -> Seq<Seq<u8>> {
    parts.map_values(|part: Vec<u8>| part@)
}

fn parts_of(bytes: &Vec<u8>) -> (r: Vec<Vec<u8>>)
    ensures
        part_bytes(r@) == named_parts(bytes@),
{
    let mut out: Vec<Vec<u8>> = Vec::new();
    let mut pos: usize = 0;
    assert(bytes@.skip(0) =~= bytes@);
    while pos < bytes.len()
        invariant
            pos <= bytes@.len(),
            part_bytes(out@) + named_parts(bytes@.skip(pos as int)) == named_parts(bytes@),
        decreases bytes@.len() - pos,
    {
        let mut end: usize = pos;
        while end < bytes.len() && bytes[end] != 0x2f
            invariant
                pos <= end <= bytes@.len(),
                forall|j: int| pos <= j < end ==> #[trigger] bytes@[j] != 0x2f,
            decreases bytes@.len() - end,
        {
            end += 1;
        }
        let ghost rest = bytes@.skip(pos as int);
        let ghost head = rest.take(end - pos);
        let ghost before = out@;
        proof {
            assert forall|j: int| 0 <= j < end - pos implies #[trigger] rest[j] != 0x2f by {
                assert(rest[j] == bytes@[j + pos]);
            }
            lemma_before_slash(rest, end - pos);
            assert(head =~= bytes@.subrange(pos as int, end as int));
            if end < bytes@.len() {
                assert(rest.skip(end - pos + 1) =~= bytes@.skip(end + 1));
            } else {
                assert(bytes@.skip(end as int) =~= Seq::<u8>::empty());
            }
        }
        let lone_dot = end - pos == 1 && bytes[pos] == 0x2e;
        assert(lone_dot == (head == seq![0x2eu8])) by {
            if lone_dot {
                assert(head =~= seq![0x2eu8]);
            }
        }
        if end > pos && !lone_dot {
            let part = bytes_between(bytes, pos, end);
            out.push(part);
            assert(part_bytes(out@) =~= part_bytes(before) + seq![head]);
        }
        let next: usize = if end < bytes.len() {
            end + 1
        } else {
            end
        };
        proof {
            let after = named_parts(bytes@.skip(next as int));
            assert(part_bytes(out@) + after =~= part_bytes(before) + named_parts(rest));
        }
        pos = next;
    }
    proof {
        assert(bytes@.skip(pos as int) =~= Seq::<u8>::empty());
        assert(part_bytes(out@) + named_parts(bytes@.skip(pos as int)) =~= part_bytes(out@));
    }
    out
}

impl FsPath {
    /// The path that `bytes` spell.
    pub fn from_bytes(bytes: Vec<u8>) -> (r: Self)
        ensures
            r@ == bytes@,
    {
        FsPath { bytes }
    }

    /// The path that `text` spells.
    pub fn from_text(text: &str) -> (r: Self)
        ensures
            r@ == encode_utf8(text@),
    {
        FsPath { bytes: text.as_bytes_vec() }
    }

    /// The bytes that spell the path.
    pub fn as_bytes(&self) -> (r: &Vec<u8>)
        ensures
            r@ == self@,
    {
        &self.bytes
    }

    /// Whether the path is independent of the current directory.
    pub fn is_absolute(&self) -> (r: bool)
        ensures
            r == absolute(self@),
    {
        self.bytes.len() > 0 && self.bytes[0] == 0x2f
    }

    /// `name` looked up from this path.
    pub fn join(&self, name: &str) -> (r: Self)
        ensures
            r@ == joined_path(self@, encode_utf8(name@)),
    {
        let mut name_bytes = name.as_bytes_vec();
        if name_bytes.len() > 0 && name_bytes[0] == 0x2f {
            return FsPath { bytes: name_bytes };
        }
        let mut bytes = self.bytes.clone();
        assert(bytes@ =~= self@);
        if bytes.len() > 0 && bytes[bytes.len() - 1] != 0x2f {
            bytes.push(0x2f);
        }
        bytes.append(&mut name_bytes);
        FsPath { bytes }
    }

    /// The path as text for a reader.
    pub fn display(&self) -> (r: String)
        ensures
            r@ == shown_text(self@),
    {
        show(self.bytes.as_slice())
    }

    /// Whether the two spell one path.
    pub fn same_as(&self, other: &FsPath) -> (r: bool)
        ensures
            r == same_path(self@, other@),
    {
        if self.is_absolute() != other.is_absolute() || self.has_leading_dot()
            != other.has_leading_dot() {
            return false;
        }
        let mine = parts_of(&self.bytes);
        let theirs = parts_of(&other.bytes);
        let ghost my_parts = named_parts(self@);
        let ghost their_parts = named_parts(other@);
        assert(mine@.len() == part_bytes(mine@).len());
        assert(theirs@.len() == part_bytes(theirs@).len());
        if mine.len() != theirs.len() {
            return false;
        }
        let mut i: usize = 0;
        while i < mine.len()
            invariant
                i <= mine@.len(),
                mine@.len() == theirs@.len(),
                part_bytes(mine@) == my_parts,
                part_bytes(theirs@) == their_parts,
                my_parts == named_parts(self@),
                their_parts == named_parts(other@),
                forall|j: int| 0 <= j < i ==> #[trigger] my_parts[j] == their_parts[j],
            decreases mine@.len() - i,
        {
            assert(my_parts[i as int] == mine@[i as int]@);
            assert(their_parts[i as int] == theirs@[i as int]@);
            if !(mine[i] == theirs[i]) {
                return false;
            }
            assert(my_parts[i as int] =~= their_parts[i as int]);
            i += 1;
        }
        assert(my_parts =~= their_parts);
        true
    }

    fn has_leading_dot(&self) -> (r: bool)
        ensures
            r == leading_dot(self@),
    {
        self.bytes.len() > 0 && self.bytes[0] == 0x2e && (self.bytes.len() == 1 || self.bytes[1]
            == 0x2f)
    }
}

impl PartialEq for FsPath {
    fn eq(&self, other: &Self) -> (r: bool) {
        self.same_as(other)
    }
}

impl vstd::std_specs::cmp::PartialEqSpecImpl for FsPath {
    open spec fn obeys_eq_spec() -> bool {
        true
    }

    open spec fn eq_spec(&self, other: &Self) -> bool {
        same_path(self@, other@)
    }
}

/// A path is absolute exactly when it begins with a slash.
pub proof fn absolute_paths_begin_with_a_slash(path: Seq<u8>, first: u8)
    ensures
        absolute(seq![first] + path) <==> first == 0x2f,
        !absolute(Seq::<u8>::empty()),
{
}

/// A relative name is put behind its base with exactly one slash between the two where the base does
/// not end with one; an absolute name stands for itself.
pub proof fn joined_name_stands_below_its_base(base: Seq<u8>, name: Seq<u8>, last: u8)
    ensures
        absolute(name) ==> joined_path(base, name) == name,
        !absolute(name) ==> joined_path(Seq::empty(), name) == name,
        !absolute(name) && last != 0x2f ==> joined_path(base.push(last), name) == base.push(last)
            + seq![0x2fu8] + name,
        !absolute(name) && last == 0x2f ==> joined_path(base.push(last), name) == base.push(last)
            + name,
{
    assert(Seq::<u8>::empty() + name =~= name);
    if last != 0x2f {
        assert(base.push(last).push(0x2f) =~= base.push(last) + seq![0x2fu8]);
    }
}

proof fn lemma_before_slash_is_first(path: Seq<u8>)
    ensures
        before_slash(path) <= path.len(),
        forall|j: int| 0 <= j < before_slash(path) ==> #[trigger] path[j] != 0x2f,
        before_slash(path) < path.len() ==> path[before_slash(path) as int] == 0x2f,
    decreases path.len(),
{
    if path.len() > 0 && path[0] != 0x2f {
        let rest = path.skip(1);
        lemma_before_slash_is_first(rest);
        assert forall|j: int| 0 <= j < before_slash(path) implies #[trigger] path[j] != 0x2f by {
            if j > 0 {
                assert(path[j] == rest[j - 1]);
            }
        }
        if before_slash(path) < path.len() {
            assert(path[before_slash(path) as int] == rest[before_slash(rest) as int]);
        }
    }
}

/// The parts of a path with a slash in it are those before the slash and those after it: a slash
/// parts names and counts for nothing else, however often it stands.
pub proof fn slash_parts_names(a: Seq<u8>, b: Seq<u8>)
    ensures
        named_parts(a + seq![0x2fu8] + b) == named_parts(a) + named_parts(b),
    decreases a.len(),
{
    let whole = a + seq![0x2fu8] + b;
    lemma_before_slash_is_first(a);
    let n = before_slash(a) as int;
    assert forall|j: int| 0 <= j < n implies #[trigger] whole[j] != 0x2f by {
        assert(whole[j] == a[j]);
    }
    assert(whole[n] == 0x2f);
    lemma_before_slash(whole, n);
    assert(whole.take(n) =~= a.take(n));
    if n < a.len() {
        slash_parts_names(a.skip(n + 1), b);
        assert(whole.skip(n + 1) =~= a.skip(n + 1) + seq![0x2fu8] + b);
        assert(named_parts(whole) =~= named_parts(a) + named_parts(b));
    } else {
        assert(whole.skip(n + 1) =~= b);
        assert(a.take(n) =~= a);
        assert(named_parts(whole) =~= named_parts(a) + named_parts(b));
    }
}

/// A name without a slash is its own only part, unless it is empty or a single dot, which name nothing.
pub proof fn name_is_its_own_part(name: Seq<u8>)
    requires
        forall|j: int| 0 <= j < name.len() ==> #[trigger] name[j] != 0x2f,
    ensures
        named_parts(name) == (if name.len() == 0 || name == seq![0x2eu8] {
            Seq::<Seq<u8>>::empty()
        } else {
            seq![name]
        }),
{
    lemma_before_slash(name, name.len() as int);
    assert(name.take(name.len() as int) =~= name);
    assert(seq![name] + Seq::<Seq<u8>>::empty() =~= seq![name]);
}

/// Two spellings are one path exactly when both or neither begin with a slash, both or neither with a
/// lone dot, and their parts are the same.
pub proof fn spellings_of_one_path(a: Seq<u8>, b: Seq<u8>, c: Seq<u8>)
    ensures
        same_path(a, a),
        same_path(a, b) ==> same_path(b, a),
        same_path(a, b) && same_path(b, c) ==> same_path(a, c),
        same_path(a, b) <==> {
            &&& absolute(a) <==> absolute(b)
            &&& leading_dot(a) <==> leading_dot(b)
            &&& named_parts(a) == named_parts(b)
        },
        leading_dot(a) <==> a == seq![0x2eu8] || a.len() > 1 && a[0] == 0x2e && a[1] == 0x2f,
        absolute(a) ==> same_path(a, a + seq![0x2fu8]) && same_path(a, a + seq![0x2fu8, 0x2eu8]),
{
    if a.len() == 1 && a[0] == 0x2e {
        assert(a =~= seq![0x2eu8]);
    }
    if absolute(a) {
        let none = Seq::<u8>::empty();
        let dot = seq![0x2eu8];
        slash_parts_names(a, none);
        slash_parts_names(a, dot);
        assert(a + seq![0x2fu8] + none =~= a + seq![0x2fu8]);
        assert(a + seq![0x2fu8] + dot =~= a + seq![0x2fu8, 0x2eu8]);
        name_is_its_own_part(dot);
        assert(named_parts(a) + Seq::<Seq<u8>>::empty() =~= named_parts(a));
    }
}

} // verus!
