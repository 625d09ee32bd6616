//! Unix paths: raw bytes, with slashes between the components.
use vstd::prelude::*;

use crate::text;

verus! {

/// A path, as the bytes that the system is given.
pub struct UnixPath {
    pub bytes: Vec<u8>,
}

impl View for UnixPath {
    type V = Seq<u8>;

    open spec fn view(&self) -> Seq<u8> {
        self.bytes@
    }
}

impl Clone for UnixPath {
    fn clone(&self) -> (r: Self)
        ensures
            r@ == self@,
    {
        let bytes = self.bytes.clone();
        assert(bytes@ =~= self.bytes@);
        UnixPath { bytes }
    }
}

/// The byte that stands between components.
pub open spec fn slash() -> u8 {
    47
}

/// The byte that the current directory's name is made of.
pub open spec fn dot() -> u8 {
    46
}

/// `name` taken relative to `base`. An absolute name replaces the base; a base
/// that is empty or already ends in a slash gets no further slash.
pub open spec fn joined(base: Seq<u8>, name: Seq<u8>) -> Seq<u8> {
    if name.len() > 0 && name[0] == slash() {
        name
    } else if base.len() == 0 || base.last() == slash() {
        base + name
    } else {
        base.push(slash()) + name
    }
}

/// The path without slashes and `.` components at its end. A `.` that is the
/// whole path, or stands at its front, is kept.
pub open spec fn trimmed(p: Seq<u8>) -> Seq<u8>
    decreases p.len(),
{
    if p.len() > 0 && p.last() == slash() {
        trimmed(p.drop_last())
    } else if p.len() > 1 && p.last() == dot() && p[p.len() - 2] == slash() {
        trimmed(p.drop_last())
    } else {
        p
    }
}

/// The length of what stands before the last component, its slash included.
pub open spec fn dir_len(p: Seq<u8>) -> int
    decreases p.len(),
{
    if p.len() == 0 || p.last() == slash() {
        p.len() as int
    } else {
        dir_len(p.drop_last())
    }
}

/// The last component of a path, if that names a file: not the root, the
/// current directory or a parent directory.
pub open spec fn file_name_of(p: Seq<u8>) -> Option<Seq<u8>> {
    let t = trimmed(p);
    let name = t.skip(dir_len(t));
    if name.len() == 0 || name == seq![dot()] || name == seq![dot(), dot()] {
        None
    } else {
        Some(name)
    }
}

/// What is left of a path without its last component.
pub open spec fn parent_of(p: Seq<u8>) -> Seq<u8> {
    let t = trimmed(p);
    let parent = trimmed(t.take(dir_len(t)));
    if parent.len() == 0 && p.len() > 0 && p[0] == slash() {
        seq![slash()]
    } else {
        parent
    }
}

/// The path with another last component in place of its own.
pub open spec fn with_file_name_of(p: Seq<u8>, name: Seq<u8>) -> Seq<u8> {
    joined(
        if file_name_of(p) is Some {
            parent_of(p)
        } else {
            p
        },
        name,
    )
}

/// Copies the first `end` bytes.
fn prefix(bytes: &Vec<u8>, end: usize) -> (r: Vec<u8>)
    requires
        end <= bytes@.len(),
    ensures
        r@ == bytes@.take(end as int),
{
    let mut r: Vec<u8> = Vec::new();
    let mut i: usize = 0;
    while i < end
        invariant
            i <= end <= bytes@.len(),
            r@ == bytes@.take(i as int),
        decreases end - i,
    {
        r.push(bytes[i]);
        i = i + 1;
        assert(bytes@.take(i as int) =~= bytes@.take(i - 1).push(bytes@[i - 1]));
    }
    r
}

/// Copies the bytes from `from` up to `end`.
fn middle(bytes: &Vec<u8>, from: usize, end: usize) -> (r: Vec<u8>)
    requires
        from <= end <= bytes@.len(),
    ensures
        r@ == bytes@.subrange(from as int, end as int),
{
    let mut r: Vec<u8> = Vec::new();
    let mut i: usize = from;
    while i < end
        invariant
            from <= i <= end <= bytes@.len(),
            r@ == bytes@.subrange(from as int, i as int),
        decreases end - i,
    {
        r.push(bytes[i]);
        i = i + 1;
        assert(bytes@.subrange(from as int, i as int) =~= bytes@.subrange(from as int, i - 1).push(
            bytes@[i - 1],
        ));
    }
    r
}

/// How much of the first `end` bytes is left once they are trimmed.
fn trimmed_len(bytes: &Vec<u8>, end: usize) -> (r: usize)
    requires
        end <= bytes@.len(),
    ensures
        r <= end,
        bytes@.take(r as int) == trimmed(bytes@.take(end as int)),
{
    let mut n: usize = end;
    while n > 0 && (bytes[n - 1] == 47 || (n > 1 && bytes[n - 1] == 46 && bytes[n - 2] == 47))
        invariant
            n <= end <= bytes@.len(),
            trimmed(bytes@.take(n as int)) == trimmed(bytes@.take(end as int)),
        decreases n,
    {
        let ghost p = bytes@.take(n as int);
        assert(p.drop_last() =~= bytes@.take(n - 1));
        n = n - 1;
    }
    n
}

/// Where the last component of the first `end` bytes starts.
fn name_start(bytes: &Vec<u8>, end: usize) -> (r: usize)
    requires
        end <= bytes@.len(),
    ensures
        r <= end,
        r == dir_len(bytes@.take(end as int)),
{
    let mut n: usize = end;
    while n > 0 && bytes[n - 1] != 47
        invariant
            n <= end <= bytes@.len(),
            dir_len(bytes@.take(n as int)) == dir_len(bytes@.take(end as int)),
        decreases n,
    {
        assert(bytes@.take(n as int).drop_last() =~= bytes@.take(n - 1));
        n = n - 1;
    }
    n
}

impl UnixPath {
    /// The path that a text spells.
    pub fn from_text(s: &str) -> (r: Self)
        ensures
            r@ == text::utf8(s@),
    {
        UnixPath { bytes: text::bytes_of(s) }
    }

    /// `name` taken relative to this path.
    pub fn join(&self, name: &Vec<u8>) -> (r: Self)
        ensures
            r@ == joined(self@, name@),
    {
        if name.len() > 0 && name[0] == 47 {
            let bytes = name.clone();
            assert(bytes@ =~= name@);
            return UnixPath { bytes };
        }
        let mut bytes = self.bytes.clone();
        assert(bytes@ =~= self.bytes@);
        if bytes.len() > 0 && bytes[bytes.len() - 1] != 47 {
            bytes.push(47);
        }
        let mut tail = name.clone();
        assert(tail@ =~= name@);
        bytes.append(&mut tail);
        UnixPath { bytes }
    }

    /// A name that is given as text, taken relative to this path.
    pub fn join_text(&self, name: &str) -> (r: Self)
        ensures
            r@ == joined(self@, text::utf8(name@)),
    {
        self.join(&text::bytes_of(name))
    }

    /// The last component, if it names a file.
    pub fn file_name(&self) -> (r: Option<Vec<u8>>)
        ensures
            match r {
                Some(name) => file_name_of(self@) == Some(name@),
                None => file_name_of(self@) is None,
            },
    {
        let end = trimmed_len(&self.bytes, self.bytes.len());
        assert(self@.take(self@.len() as int) =~= self@);
        let start = name_start(&self.bytes, end);
        let name = middle(&self.bytes, start, end);
        let ghost t = trimmed(self@);
        assert(name@ =~= t.skip(dir_len(t)));
        if name.len() == 0 {
            return None;
        }
        if name.len() == 1 && name[0] == 46 {
            assert(name@ =~= seq![dot()]);
            return None;
        }
        if name.len() == 2 && name[0] == 46 && name[1] == 46 {
            assert(name@ =~= seq![dot(), dot()]);
            return None;
        }
        assert(name@ != seq![dot()]) by {
            if name@ == seq![dot()] {
                assert(name@.len() == 1);
                assert(name@[0] == 46);
            }
        }
        assert(name@ != seq![dot(), dot()]) by {
            if name@ == seq![dot(), dot()] {
                assert(name@.len() == 2);
                assert(name@[0] == 46 && name@[1] == 46);
            }
        }
        Some(name)
    }

    /// The path without its last component.
    pub fn parent(&self) -> (r: Self)
        ensures
            r@ == parent_of(self@),
    {
        let end = trimmed_len(&self.bytes, self.bytes.len());
        assert(self@.take(self@.len() as int) =~= self@);
        let start = name_start(&self.bytes, end);
        let ghost t = trimmed(self@);
        assert(t.take(dir_len(t)) =~= self@.take(start as int));
        let kept = trimmed_len(&self.bytes, start);
        let mut bytes = prefix(&self.bytes, kept);
        if kept == 0 && self.bytes.len() > 0 && self.bytes[0] == 47 {
            bytes.push(47);
            assert(bytes@ =~= seq![slash()]);
        }
        UnixPath { bytes }
    }

    /// The path with `name` in place of its last component.
    pub fn with_file_name(&self, name: &Vec<u8>) -> (r: Self)
        ensures
            r@ == with_file_name_of(self@, name@),
    {
        match self.file_name() {
            Some(_) => self.parent().join(name),
            None => self.join(name),
        }
    }
}

/// Why a path cannot be used: nothing is there.
#[derive(Clone, Copy, PartialEq, Eq, Structural, Debug)]
pub struct PathMissing;

/// Paths that have to lead somewhere.
pub trait EnsureExistsExt: Sized {
    /// The path, if something is there. `exists` tells whether that is so.
    fn ensure_exists(self, exists: bool) -> (r: Result<Self, PathMissing>)
        ensures
            r == (if exists {
                Ok(self)
            } else {
                Err(PathMissing)
            }),
    ;
}

impl EnsureExistsExt for UnixPath {
    fn ensure_exists(self, exists: bool) -> (r: Result<Self, PathMissing>) {
        if exists {
            Ok(self)
        } else {
            Err(PathMissing)
        }
    }
}

proof fn lemma_dir_len(p: Seq<u8>)
    ensures
        0 <= dir_len(p) <= p.len(),
        forall|i: int| dir_len(p) <= i < p.len() ==> p[i] != slash(),
        dir_len(p) > 0 ==> p[dir_len(p) - 1] == slash(),
    decreases p.len(),
{
    if p.len() > 0 && p.last() != slash() {
        let q = p.drop_last();
        lemma_dir_len(q);
        assert forall|i: int| dir_len(p) <= i < p.len() implies p[i] != slash() by {
            if i < q.len() {
                assert(q[i] == p[i]);
            }
        }
        if dir_len(q) > 0 {
            assert(q[dir_len(q) - 1] == p[dir_len(q) - 1]);
        }
    }
}

proof fn lemma_dir_len_unique(p: Seq<u8>, n: int)
    requires
        0 <= n <= p.len(),
        forall|i: int| n <= i < p.len() ==> p[i] != slash(),
        n > 0 ==> p[n - 1] == slash(),
    ensures
        dir_len(p) == n,
{
    lemma_dir_len(p);
    if dir_len(p) < n {
        assert(p[n - 1] != slash());
    }
    if n < dir_len(p) {
        assert(p[dir_len(p) - 1] != slash());
    }
}

proof fn lemma_trimmed_idempotent(p: Seq<u8>)
    ensures
        trimmed(trimmed(p)) == trimmed(p),
    decreases p.len(),
{
    if p.len() > 0 && p.last() == slash() {
        lemma_trimmed_idempotent(p.drop_last());
    } else if p.len() > 1 && p.last() == dot() && p[p.len() - 2] == slash() {
        lemma_trimmed_idempotent(p.drop_last());
    }
}

/// The last component of a path has no slash in it.
pub proof fn lemma_file_name(p: Seq<u8>)
    requires
        file_name_of(p) is Some,
    ensures
        file_name_of(p)->0.len() > 0,
        !file_name_of(p)->0.contains(slash()),
{
    let t = trimmed(p);
    lemma_dir_len(t);
    let name = t.skip(dir_len(t));
    assert forall|i: int| 0 <= i < name.len() implies name[i] != slash() by {
        assert(name[i] == t[dir_len(t) + i]);
    }
}

/// A name that is joined to a directory is the last component of the path.
pub proof fn law_join_file_name(base: Seq<u8>, name: Seq<u8>)
    requires
        name.len() > 0,
        !name.contains(slash()),
        name.last() != dot(),
    ensures
        file_name_of(joined(base, name)) == Some(name),
{
    let j = joined(base, name);
    assert(name[0] != slash()) by {
        assert(name.contains(name[0]));
    }
    assert(name[name.len() - 1] != slash()) by {
        assert(name.contains(name[name.len() - 1]));
    }
    law_join_relative(base, name);
    let n = j.len() - name.len();
    assert(j.last() == name.last());
    assert(trimmed(j) == j);
    assert forall|i: int| n <= i < j.len() implies j[i] != slash() by {
        assert(j[i] == name[i - n]);
        assert(name.contains(name[i - n]));
    }
    lemma_dir_len_unique(j, n);
    assert(j.skip(n) =~= name);
    assert(name != seq![dot()]) by {
        if name == seq![dot()] {
            assert(name.last() == dot());
        }
    }
    assert(name != seq![dot(), dot()]) by {
        if name == seq![dot(), dot()] {
            assert(name.last() == dot());
        }
    }
}

/// A path whose last component was replaced ends in the new one, and lies in
/// the directory that the old path lies in.
pub proof fn law_with_file_name(p: Seq<u8>, name: Seq<u8>)
    requires
        file_name_of(p) is Some,
        name.len() > 0,
        !name.contains(slash()),
        name.last() != dot(),
    ensures
        file_name_of(with_file_name_of(p, name)) == Some(name),
        parent_of(with_file_name_of(p, name)) == parent_of(p),
{
    let parent = parent_of(p);
    let j = with_file_name_of(p, name);
    law_join_file_name(parent, name);
    assert(name[0] != slash()) by {
        assert(name.contains(name[0]));
    }
    assert(name[name.len() - 1] != slash()) by {
        assert(name.contains(name[name.len() - 1]));
    }
    law_join_relative(parent, name);
    assert(j == joined(parent, name));
    let n = j.len() - name.len();
    assert(j.last() == name.last());
    assert(trimmed(j) == j);
    assert forall|i: int| n <= i < j.len() implies j[i] != slash() by {
        assert(j[i] == name[i - n]);
        assert(name.contains(name[i - n]));
    }
    lemma_dir_len_unique(j, n);
    // The parent is trimmed, or it is the root.
    let t = trimmed(p);
    let q = trimmed(t.take(dir_len(t)));
    lemma_trimmed_idempotent(t.take(dir_len(t)));
    if parent == q {
        if parent.len() == 0 {
            assert(j.take(n) =~= parent);
        } else {
            lemma_trimmed_last(t.take(dir_len(t)));
            assert(j.take(n) =~= parent.push(slash()));
            assert(parent.push(slash()).drop_last() =~= parent);
            assert(j[0] == parent[0]);
        }
        assert(trimmed(j.take(n)) == parent);
    } else {
        assert(parent == seq![slash()]);
        assert(j.take(n) =~= parent);
        assert(parent.drop_last() =~= Seq::<u8>::empty());
        assert(trimmed(Seq::<u8>::empty()) =~= Seq::<u8>::empty());
        assert(j[0] == slash());
    }
}

proof fn lemma_trimmed_last(p: Seq<u8>)
    ensures
        trimmed(p).len() > 0 ==> trimmed(p).last() != slash(),
    decreases p.len(),
{
    if p.len() > 0 && p.last() == slash() {
        lemma_trimmed_last(p.drop_last());
    } else if p.len() > 1 && p.last() == dot() && p[p.len() - 2] == slash() {
        lemma_trimmed_last(p.drop_last());
    }
}

/// A path that is joined with a relative name ends in that name.
pub proof fn law_join_relative(base: Seq<u8>, name: Seq<u8>)
    requires
        name.len() == 0 || name[0] != slash(),
    ensures
        joined(base, name).len() >= base.len() + name.len(),
        joined(base, name).take(base.len() as int) == base,
        joined(base, name).skip(joined(base, name).len() - name.len()) == name,
{
    let j = joined(base, name);
    assert(j.take(base.len() as int) =~= base);
    assert(j.skip(j.len() - name.len()) =~= name);
}

/// Two relative names give two paths.
pub proof fn law_join_injective(base: Seq<u8>, a: Seq<u8>, b: Seq<u8>)
    requires
        a.len() == 0 || a[0] != slash(),
        b.len() == 0 || b[0] != slash(),
        joined(base, a) == joined(base, b),
    ensures
        a == b,
{
    law_join_relative(base, a);
    law_join_relative(base, b);
    let j = joined(base, a);
    assert(j.len() - a.len() == j.len() - b.len());
}

/// An absolute name is a path of its own. A relative one stands behind the base, with
/// one slash between them unless the base ends in one or is empty.
pub proof fn law_join(base: Seq<u8>, name: Seq<u8>)
    ensures
        name.len() > 0 && name[0] == 0x2f ==> joined(base, name) == name,
        (name.len() == 0 || name[0] != 0x2f) ==> {
            let j = joined(base, name);
            let bare = base.len() == 0 || base[base.len() - 1] == 0x2f;
            &&& j.len() == base.len() + name.len() + if bare {
                0int
            } else {
                1int
            }
            &&& j.take(base.len() as int) == base
            &&& j.skip(j.len() - name.len()) == name
            &&& !bare ==> j[base.len() as int] == 0x2f
        },
{
    if name.len() == 0 || name[0] != 0x2f {
        law_join_relative(base, name);
    }
}

/// A slash at its end, and a dot behind that, are no matter to the last component of
/// a path, nor to where it lies.
pub proof fn law_trailing_slash(p: Seq<u8>)
    requires
        p.len() > 0,
    ensures
        file_name_of(p.push(0x2f)) == file_name_of(p),
        file_name_of(p.push(0x2f).push(0x2e)) == file_name_of(p),
        parent_of(p.push(0x2f)) == parent_of(p),
{
    let q = p.push(0x2fu8);
    let r = q.push(0x2eu8);
    assert(q.drop_last() =~= p);
    assert(r.drop_last() =~= q);
    assert(trimmed(q) == trimmed(p));
    assert(trimmed(r) == trimmed(q));
    assert(q[0] == p[0]);
}

/// A name that is joined to a directory is the last component of the path, whatever
/// it ends in, unless it stands for a directory itself.
pub proof fn law_join_any_name(base: Seq<u8>, name: Seq<u8>)
    requires
        name.len() > 0,
        !name.contains(slash()),
    ensures
        name != seq![0x2eu8] && name != seq![0x2eu8, 0x2eu8] ==> file_name_of(joined(base, name))
            == Some(name),
        name == seq![0x2eu8, 0x2eu8] ==> file_name_of(joined(base, name)) is None,
{
    let j = joined(base, name);
    assert(name[0] != slash()) by {
        assert(name.contains(name[0]));
    }
    assert(name[name.len() - 1] != slash()) by {
        assert(name.contains(name[name.len() - 1]));
    }
    law_join_relative(base, name);
    let n = j.len() - name.len();
    assert(j.skip(n) =~= name);
    assert(j[j.len() - 1] == name[name.len() - 1]) by {
        assert(j.skip(n)[name.len() - 1] == j[j.len() - 1]);
    }
    if name != seq![0x2eu8] {
        assert(trimmed(j) == j) by {
            if j.len() > 1 && j.last() == dot() && j[j.len() - 2] == slash() {
                if name.len() == 1 {
                    assert(name =~= seq![0x2eu8]);
                } else {
                    assert(j.skip(n)[name.len() - 2] == j[j.len() - 2]);
                    assert(name.contains(name[name.len() - 2]));
                }
            }
        }
        assert forall|i: int| n <= i < j.len() implies j[i] != slash() by {
            assert(j.skip(n)[i - n] == j[i]);
            assert(name.contains(name[i - n]));
        }
        assert(n > 0 ==> j[n - 1] == slash());
        lemma_dir_len_unique(j, n);
    }
}

/// What a file lies in is the directory that its name was joined to, and another
/// name in place of its own lies in the same directory. A directory is written
/// without a slash, or a dot behind one, at its end; the root is one slash, and a
/// name by itself lies in no directory.
pub proof fn law_parent(dir: Seq<u8>, name: Seq<u8>, other: Seq<u8>)
    requires
        dir.len() == 0 || dir == seq![0x2fu8] || (dir[dir.len() - 1] != 0x2f && !(dir.len() > 1
            && dir[dir.len() - 1] == 0x2e && dir[dir.len() - 2] == 0x2f)),
        name.len() > 0,
        !name.contains(slash()),
        name != seq![0x2eu8],
        name != seq![0x2eu8, 0x2eu8],
    ensures
        parent_of(joined(dir, name)) == dir,
        with_file_name_of(joined(dir, name), other) == joined(dir, other),
{
    let j = joined(dir, name);
    law_join_any_name(dir, name);
    assert(name[0] != slash()) by {
        assert(name.contains(name[0]));
    }
    assert(name[name.len() - 1] != slash()) by {
        assert(name.contains(name[name.len() - 1]));
    }
    law_join_relative(dir, name);
    let n = j.len() - name.len();
    assert(j.skip(n) =~= name);
    assert(j[j.len() - 1] == name[name.len() - 1]) by {
        assert(j.skip(n)[name.len() - 1] == j[j.len() - 1]);
    }
    assert(trimmed(j) == j) by {
        if j.len() > 1 && j.last() == dot() && j[j.len() - 2] == slash() {
            if name.len() == 1 {
                assert(name =~= seq![0x2eu8]);
            } else {
                assert(j.skip(n)[name.len() - 2] == j[j.len() - 2]);
                assert(name.contains(name[name.len() - 2]));
            }
        }
    }
    assert forall|i: int| n <= i < j.len() implies j[i] != slash() by {
        assert(j.skip(n)[i - n] == j[i]);
        assert(name.contains(name[i - n]));
    }
    lemma_dir_len_unique(j, n);
    if dir.len() == 0 {
        assert(j.take(n) =~= dir);
        assert(trimmed(dir) =~= dir);
        assert(j[0] == name[0]);
    } else if dir == seq![0x2fu8] {
        assert(j.take(n) =~= dir);
        assert(dir.drop_last() =~= Seq::<u8>::empty());
        reveal_with_fuel(trimmed, 2);
        assert(trimmed(dir) =~= Seq::<u8>::empty());
        assert(j[0] == slash());
        assert(parent_of(j) =~= dir);
    } else {
        assert(j.take(n) =~= dir.push(slash()));
        assert(dir.push(slash()).drop_last() =~= dir);
        assert(trimmed(dir) == dir);
        assert(trimmed(dir.push(slash())) == dir);
    }
}

} // verus!
