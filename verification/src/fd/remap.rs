//! Descriptors that get new numbers in the child.
//!
//! Between `fork` and `exec` the child first moves every descriptor out of the
//! way whose number another one is to get, then gives each descriptor its
//! number.
use vstd::prelude::*;

use crate::fd::FdsExhausted;
use crate::fd::PassedFd;

verus! {

// ---------------------------------------------------------------------------
// Numbers for the child
// ---------------------------------------------------------------------------
/// Where the numbers of descriptors in the child come from. They are valid
/// there and not in use.
pub trait FdSource: Sized {
    /// The numbers that are still to come.
    spec fn remaining(&self) -> Seq<i32>;

    /// Takes the next number.
    fn next(&mut self) -> (r: Option<i32>)
        ensures
            old(self).remaining().len() == 0 ==> r is None && final(self).remaining() == old(self).remaining(),
            old(self).remaining().len() > 0 ==> r == Some(old(self).remaining()[0]) && final(self).remaining() == old(self).remaining().drop_first(),
    ;
}

/// The numbers from `first` to `last`, both included.
pub open spec fn numbers(first: int, last: int) -> Seq<i32> {
    Seq::new(
        (if last < first {
            0
        } else {
            last - first + 1
        }) as nat,
        |i: int| (first + i) as i32,
    )
}

/// A range of numbers, both ends included.
pub struct FdRange {
    next: i32,
    last: i32,
    exhausted: bool,
}

impl FdRange {
    /// The numbers from `first` to `last`.
    pub fn new(first: i32, last: i32) -> (r: Self)
        ensures
            r.remaining() == numbers(first as int, last as int),
    {
        let r = FdRange { next: first, last, exhausted: last < first };
        assert(r.remaining() =~= numbers(first as int, last as int));
        r
    }
}

impl FdSource for FdRange {
    closed spec fn remaining(&self) -> Seq<i32> {
        if self.exhausted {
            Seq::empty()
        } else {
            numbers(self.next as int, self.last as int)
        }
    }

    fn next(&mut self) -> (r: Option<i32>) {
        if self.exhausted || self.next > self.last {
            return None;
        }
        let ghost before = self.remaining();
        let r = self.next;
        if self.next == self.last {
            self.exhausted = true;
        } else {
            self.next = self.next + 1;
        }
        assert(self.remaining() =~= before.drop_first());
        Some(r)
    }
}

// ---------------------------------------------------------------------------
// Collecting descriptors
// ---------------------------------------------------------------------------
/// A descriptor of the parent and the number that it gets in the child.
#[derive(Clone, Copy, PartialEq, Eq, Structural, Debug)]
pub struct FdMapping {
    pub parent_fd: i32,
    pub child_fd: i32,
}

/// The descriptors that a child is given.
pub struct FdContext<T: FdSource> {
    pub free_fd_source: T,
    pub mappings: Vec<FdMapping>,
}

/// A context whose numbers come from a range.
pub type SimpleFdContext = FdContext<FdRange>;

/// The numbers that have been given out and those still to come.
pub open spec fn all_numbers(mappings: Seq<FdMapping>, remaining: Seq<i32>) -> Seq<i32> {
    Seq::new(mappings.len(), |i: int| mappings[i].child_fd) + remaining
}

/// Whether each number is greater than those before it.
pub open spec fn increasing(s: Seq<i32>) -> bool {
    forall|i: int, j: int| 0 <= i < j < s.len() ==> s[i] < s[j]
}

impl FdContext<FdRange> {
    /// A context for up to `capacity` descriptors, numbered from 3 on. The
    /// numbers end where there are no greater ones.
    pub fn new(capacity: i32) -> (r: Self)
        requires
            capacity <= i32::MAX - 1,
        ensures
            r.mappings@.len() == 0,
            r.free_fd_source.remaining() == numbers(3, last_number(capacity)),
            r.well_formed(),
    {
        let spare: i32 = capacity + 1;
        let last: i32 = if spare > i32::MAX - 4 {
            i32::MAX
        } else {
            3 + spare + 1
        };
        let r = Self::manual(FdRange::new(3, last));
        assert(all_numbers(r.mappings@, r.free_fd_source.remaining()) =~= numbers(
            3,
            last_number(capacity),
        ));
        r
    }
}

/// The last number for a context of the given capacity.
pub open spec fn last_number(capacity: i32) -> int {
    if capacity + 5 > i32::MAX {
        i32::MAX as int
    } else {
        capacity + 5
    }
}

impl<T: FdSource> FdContext<T> {
    /// No number is given out twice, and they are given out in order.
    pub open spec fn well_formed(&self) -> bool {
        increasing(all_numbers(self.mappings@, self.free_fd_source.remaining()))
    }

    /// A context whose numbers come from `free_fd_source`.
    ///
    /// The source should yield numbers that are not used in the child. If
    /// nothing else passes descriptors, any numbers beyond 0, 1 and 2 are safe.
    /// There should be one more than there are descriptors to pass: it is where
    /// descriptors are moved that stand in the way of others.
    pub fn manual(free_fd_source: T) -> (r: Self)
        ensures
            r.free_fd_source == free_fd_source,
            r.mappings@.len() == 0,
            increasing(free_fd_source.remaining()) ==> r.well_formed(),
    {
        let r = FdContext { free_fd_source, mappings: Vec::new() };
        assert(all_numbers(r.mappings@, free_fd_source.remaining())
            =~= free_fd_source.remaining());
        r
    }

    /// Hands a descriptor over, under the next number.
    pub fn pass(&mut self, fd: i32) -> (r: Result<PassedFd, FdsExhausted>)
        ensures
            match r {
                Ok(passed) => {
                    &&& old(self).free_fd_source.remaining().len() > 0
                    &&& passed.fd == old(self).free_fd_source.remaining()[0]
                    &&& final(self).free_fd_source.remaining() == old(self).free_fd_source.remaining().drop_first()
                    &&& final(self).mappings@ == old(self).mappings@.push(
                        (FdMapping { parent_fd: fd, child_fd: passed.fd }),
                    )
                },
                Err(_) => {
                    &&& old(self).free_fd_source.remaining().len() == 0
                    &&& final(self).free_fd_source.remaining() == old(self).free_fd_source.remaining()
                    &&& final(self).mappings@ == old(self).mappings@
                },
            },
            old(self).well_formed() ==> final(self).well_formed(),
    {
        match self.free_fd_source.next() {
            Some(child_fd) => {
                self.mappings.push(FdMapping { parent_fd: fd, child_fd });
                assert(all_numbers(self.mappings@, self.free_fd_source.remaining()) =~= all_numbers(
                    old(self).mappings@,
                    old(self).free_fd_source.remaining(),
                ));
                Ok(PassedFd { fd: child_fd })
            },
            None => Err(FdsExhausted),
        }
    }

    /// Takes the number from which on descriptors are moved out of the way. There
    /// is none where all numbers have been given out.
    pub fn temporary_fd(&mut self) -> (r: Option<i32>)
        ensures
            final(self).mappings@ == old(self).mappings@,
            match r {
                Some(fd) => {
                    &&& old(self).free_fd_source.remaining().len() > 0
                    &&& fd == old(self).free_fd_source.remaining()[0]
                    &&& final(self).free_fd_source.remaining() == old(self).free_fd_source.remaining().drop_first()
                    &&& old(self).well_formed() ==> forall|i: int|
                        0 <= i < final(self).mappings@.len() ==> (#[trigger] final(self).mappings@[i]).child_fd < fd
                },
                None => {
                    &&& old(self).free_fd_source.remaining().len() == 0
                    &&& final(self).free_fd_source.remaining() == old(self).free_fd_source.remaining()
                },
            },
    {
        let ghost given = self.mappings@;
        let ghost to_come = self.free_fd_source.remaining();
        let r = self.free_fd_source.next();
        proof {
            if old(self).well_formed() && r is Some {
                assert forall|i: int| 0 <= i < given.len() implies (#[trigger] given[i]).child_fd
                    < r->0 by {
                    let all = all_numbers(given, to_come);
                    assert(all[i] == given[i].child_fd);
                    assert(all[given.len() as int] == to_come[0]);
                }
            }
        }
        r
    }
}

// ---------------------------------------------------------------------------
// Applying a context
// ---------------------------------------------------------------------------
/// Whether some descriptor is to get the number `fd` in the child.
pub open spec fn is_child_fd(mappings: Seq<FdMapping>, fd: i32) -> bool {
    exists|j: int| 0 <= j < mappings.len() && (#[trigger] mappings[j]).child_fd == fd
}

/// Whether the descriptor of mapping `i` stands where another one is to go.
pub open spec fn conflicting(mappings: Seq<FdMapping>, i: int) -> bool {
    is_child_fd(mappings, mappings[i].parent_fd) && mappings[i].parent_fd != mappings[i].child_fd
}

/// The conflicting ones among the first `n` mappings, in order.
pub open spec fn conflicts_upto(mappings: Seq<FdMapping>, n: int) -> Seq<usize>
    decreases n,
{
    if n <= 0 {
        Seq::empty()
    } else if conflicting(mappings, n - 1) {
        conflicts_upto(mappings, n - 1).push((n - 1) as usize)
    } else {
        conflicts_upto(mappings, n - 1)
    }
}

/// All conflicting mappings, in order.
pub open spec fn conflicts_of(mappings: Seq<FdMapping>) -> Seq<usize> {
    conflicts_upto(mappings, mappings.len() as int)
}

/// The mappings once each conflicting descriptor has been moved to the number
/// that `duplicates` lists for it.
pub open spec fn resolved(mappings: Seq<FdMapping>, duplicates: Seq<i32>) -> Seq<FdMapping> {
    Seq::new(
        mappings.len(),
        |i: int|
            if conflicting(mappings, i) {
                FdMapping {
                    parent_fd: duplicates[conflicts_upto(mappings, i).len() as int],
                    child_fd: mappings[i].child_fd,
                }
            } else {
                mappings[i]
            },
    )
}

/// A step by which the child gets its descriptors.
#[derive(Clone, Copy, PartialEq, Eq, Structural, Debug)]
pub enum FdAction {
    /// `from` is duplicated to `to`, closed on `exec`, and `from` is closed.
    Move { from: i32, to: i32 },
    /// `fd` stays open on `exec`.
    Keep { fd: i32 },
    /// `to` becomes a duplicate of `from` that stays open on `exec`.
    Duplicate { from: i32, to: i32 },
}

/// The steps that give each descriptor its number.
pub open spec fn actions_of(mappings: Seq<FdMapping>) -> Seq<FdAction> {
    Seq::new(
        mappings.len(),
        |i: int|
            if mappings[i].child_fd == mappings[i].parent_fd {
                FdAction::Keep { fd: mappings[i].parent_fd }
            } else {
                FdAction::Duplicate { from: mappings[i].parent_fd, to: mappings[i].child_fd }
            },
    )
}

impl<T: FdSource> FdContext<T> {
    fn has_child_fd(&self, fd: i32) -> (r: bool)
        ensures
            r == is_child_fd(self.mappings@, fd),
    {
        let mut j: usize = 0;
        while j < self.mappings.len()
            invariant
                j <= self.mappings@.len(),
                forall|k: int| 0 <= k < j ==> (#[trigger] self.mappings@[k]).child_fd != fd,
            decreases self.mappings@.len() - j,
        {
            if self.mappings[j].child_fd == fd {
                return true;
            }
            j = j + 1;
        }
        false
    }

    /// Finds the mappings whose descriptor has to be moved out of the way, in the
    /// order in which that is done. They are written to the front of `found`, and
    /// their number is returned.
    ///
    /// This is called between `fork` and `exec`: it only writes to places that
    /// are there.
    pub fn conflicts(&self, found: &mut Vec<usize>) -> (n: usize)
        requires
            old(found)@.len() >= self.mappings@.len(),
        ensures
            final(found)@.len() == old(found)@.len(),
            n == conflicts_of(self.mappings@).len(),
            n <= self.mappings@.len(),
            final(found)@.take(n as int) == conflicts_of(self.mappings@),
    {
        let mut n: usize = 0;
        let mut i: usize = 0;
        while i < self.mappings.len()
            invariant
                i <= self.mappings@.len(),
                found@.len() == old(found)@.len() >= self.mappings@.len(),
                n <= i,
                found@.take(n as int) == conflicts_upto(self.mappings@, i as int),
            decreases self.mappings@.len() - i,
        {
            let mapping = self.mappings[i];
            if self.has_child_fd(mapping.parent_fd) && mapping.parent_fd != mapping.child_fd {
                let ghost before = found@.take(n as int);
                found.set(n, i);
                assert(found@.take(n + 1) =~= before.push(i));
                n = n + 1;
            }
            i = i + 1;
        }
        n
    }

    /// Takes note of where the conflicting descriptors were moved, and tells
    /// how each descriptor gets its number: the step for each of them is written
    /// to its place in `actions`. What `duplicates` holds beyond the conflicting
    /// ones does not matter.
    ///
    /// This is called between `fork` and `exec`: it only writes to places that
    /// are there.
    pub fn apply(&mut self, duplicates: &Vec<i32>, actions: &mut Vec<FdAction>)
        requires
            duplicates@.len() >= conflicts_of(old(self).mappings@).len(),
            old(actions)@.len() == old(self).mappings@.len(),
        ensures
            ({
                let moved = duplicates@.take(conflicts_of(old(self).mappings@).len() as int);
                &&& final(self).free_fd_source == old(self).free_fd_source
                &&& final(self).mappings@ == resolved(old(self).mappings@, moved)
                &&& final(actions)@ == actions_of(resolved(old(self).mappings@, moved))
            }),
    {
        let ghost before = self.mappings@;
        let ghost needed = conflicts_of(before).len();
        let ghost moved = duplicates@.take(needed as int);
        let ghost all = resolved(before, moved);
        let ghost source = self.free_fd_source;
        let total: usize = duplicates.len();
        let mut k: usize = 0;
        let mut i: usize = 0;
        while i < self.mappings.len()
            invariant
                self.free_fd_source == source,
                duplicates@.len() == total,
                self.mappings@.len() == before.len() == actions@.len(),
                i <= before.len(),
                needed == conflicts_of(before).len(),
                needed <= duplicates@.len(),
                moved == duplicates@.take(needed as int),
                all == resolved(before, moved),
                k == conflicts_upto(before, i as int).len(),
                forall|j: int| 0 <= j < i ==> #[trigger] self.mappings@[j] == all[j],
                forall|j: int| i <= j < before.len() ==> #[trigger] self.mappings@[j] == before[j],
                forall|j: int| 0 <= j < i ==> #[trigger] actions@[j] == actions_of(all)[j],
            decreases before.len() - i,
        {
            let mut mapping = self.mappings[i];
            let taken = self.has_child_fd(mapping.parent_fd);
            proof {
                assert(self.mappings@[i as int] == before[i as int]);
                lemma_same_children(self.mappings@, before, mapping.parent_fd);
            }
            if taken && mapping.parent_fd != mapping.child_fd {
                proof {
                    lemma_conflicts_len(before, i + 1, before.len() as int);
                }
                assert(k < total);
                assert(moved[k as int] == duplicates@[k as int]);
                mapping.parent_fd = duplicates[k];
                k = k + 1;
            }
            assert(mapping == all[i as int]);
            self.mappings.set(i, mapping);
            if mapping.child_fd == mapping.parent_fd {
                actions.set(i, FdAction::Keep { fd: mapping.parent_fd });
            } else {
                actions.set(
                    i,
                    FdAction::Duplicate { from: mapping.parent_fd, to: mapping.child_fd },
                );
            }
            i = i + 1;
        }
        assert(self.mappings@ =~= all);
        assert(actions@ =~= actions_of(all));
    }
}

/// Which numbers are taken in the child does not depend on the descriptors of
/// the parent.
proof fn lemma_same_children(a: Seq<FdMapping>, b: Seq<FdMapping>, fd: i32)
    requires
        a.len() == b.len(),
        forall|j: int| 0 <= j < a.len() ==> (#[trigger] a[j]).child_fd == b[j].child_fd,
    ensures
        is_child_fd(a, fd) == is_child_fd(b, fd),
{
    if is_child_fd(a, fd) {
        let j = choose|j: int| 0 <= j < a.len() && (#[trigger] a[j]).child_fd == fd;
        assert(b[j].child_fd == fd);
    }
    if is_child_fd(b, fd) {
        let j = choose|j: int| 0 <= j < b.len() && (#[trigger] b[j]).child_fd == fd;
        assert(a[j].child_fd == fd);
    }
}

proof fn lemma_conflicts_len(mappings: Seq<FdMapping>, a: int, b: int)
    requires
        0 <= a <= b,
    ensures
        conflicts_upto(mappings, a).len() <= conflicts_upto(mappings, b).len(),
    decreases b,
{
    if a < b {
        lemma_conflicts_len(mappings, a, b - 1);
    }
}

// ---------------------------------------------------------------------------
// What the steps come to
// ---------------------------------------------------------------------------
/// An open descriptor: the file behind it, and whether it is closed on `exec`.
pub struct Slot {
    pub file: int,
    pub closed_on_exec: bool,
}

/// The open descriptors after one step.
pub open spec fn after(table: Map<i32, Slot>, action: FdAction) -> Map<i32, Slot> {
    match action {
        FdAction::Move { from, to } => table.insert(
            to,
            Slot { file: table[from].file, closed_on_exec: true },
        ).remove(from),
        FdAction::Keep { fd } => table.insert(
            fd,
            Slot { file: table[fd].file, closed_on_exec: false },
        ),
        FdAction::Duplicate { from, to } => table.insert(
            to,
            Slot { file: table[from].file, closed_on_exec: false },
        ),
    }
}

/// The open descriptors after all steps, from the first to the last.
pub open spec fn after_all(table: Map<i32, Slot>, actions: Seq<FdAction>) -> Map<i32, Slot>
    decreases actions.len(),
{
    if actions.len() == 0 {
        table
    } else {
        after(after_all(table, actions.drop_last()), actions.last())
    }
}

/// The moves of the conflicting ones among the first `n` mappings.
pub open spec fn moves_upto(mappings: Seq<FdMapping>, duplicates: Seq<i32>, n: int) -> Seq<FdAction>
    decreases n,
{
    if n <= 0 {
        Seq::empty()
    } else if conflicting(mappings, n - 1) {
        moves_upto(mappings, duplicates, n - 1).push(
            FdAction::Move {
                from: mappings[n - 1].parent_fd,
                to: duplicates[conflicts_upto(mappings, n - 1).len() as int],
            },
        )
    } else {
        moves_upto(mappings, duplicates, n - 1)
    }
}

/// Whether a mapping can be applied: the descriptors are open and all
/// different, and so are their numbers in the child.
pub open spec fn applicable(mappings: Seq<FdMapping>, table: Map<i32, Slot>) -> bool {
    &&& forall|i: int|
        0 <= i < mappings.len() ==> table.contains_key((#[trigger] mappings[i]).parent_fd)
    &&& forall|i: int, j: int|
        #![trigger mappings[i], mappings[j]]
        0 <= i < j < mappings.len() ==> mappings[i].parent_fd != mappings[j].parent_fd
    &&& forall|i: int, j: int|
        #![trigger mappings[i], mappings[j]]
        0 <= i < j < mappings.len() ==> mappings[i].child_fd != mappings[j].child_fd
}

/// Whether `duplicates` are numbers that duplicating descriptors can give: not
/// in use, all different, and none below the number asked for.
pub open spec fn fresh(duplicates: Seq<i32>, table: Map<i32, Slot>, temporary: i32) -> bool {
    &&& forall|k: int| 0 <= k < duplicates.len() ==> !table.contains_key(#[trigger] duplicates[k])
    &&& forall|k: int| 0 <= k < duplicates.len() ==> temporary <= #[trigger] duplicates[k]
    &&& forall|k: int, l: int|
        #![trigger duplicates[k], duplicates[l]]
        0 <= k < l < duplicates.len() ==> duplicates[k] != duplicates[l]
}

proof fn lemma_moves(
    mappings: Seq<FdMapping>,
    duplicates: Seq<i32>,
    table: Map<i32, Slot>,
    temporary: i32,
    n: int,
)
    requires
        0 <= n <= mappings.len(),
        applicable(mappings, table),
        fresh(duplicates, table, temporary),
        duplicates.len() == conflicts_of(mappings).len(),
    ensures
        ({
            let t = after_all(table, moves_upto(mappings, duplicates, n));
            let m = resolved(mappings, duplicates);
            &&& forall|i: int|
                0 <= i < n ==> t.contains_key((#[trigger] m[i]).parent_fd)
                    && t[m[i].parent_fd].file == table[mappings[i].parent_fd].file
            &&& forall|i: int|
                n <= i < mappings.len() ==> t.contains_key((#[trigger] mappings[i]).parent_fd)
                    && t[mappings[i].parent_fd].file == table[mappings[i].parent_fd].file
        }),
    decreases n,
{
    let m = resolved(mappings, duplicates);
    if n > 0 {
        lemma_moves(mappings, duplicates, table, temporary, n - 1);
        let before = after_all(table, moves_upto(mappings, duplicates, n - 1));
        let moves = moves_upto(mappings, duplicates, n);
        let t = after_all(table, moves);
        if conflicting(mappings, n - 1) {
            let k = conflicts_upto(mappings, n - 1).len() as int;
            lemma_conflicts_len(mappings, n, mappings.len() as int);
            assert(conflicts_upto(mappings, n).len() == k + 1);
            assert(moves.drop_last() =~= moves_upto(mappings, duplicates, n - 1));
            let from = mappings[n - 1].parent_fd;
            let to = duplicates[k];
            assert(t == after(before, FdAction::Move { from, to }));
            assert(!table.contains_key(to));
            assert(table.contains_key(from));
            assert forall|i: int| 0 <= i < n implies t.contains_key((#[trigger] m[i]).parent_fd)
                && t[m[i].parent_fd].file == table[mappings[i].parent_fd].file by {
                if i < n - 1 {
                    let other = mappings[i];
                    if conflicting(mappings, i) {
                        let l = conflicts_upto(mappings, i).len() as int;
                        lemma_conflicts_len(mappings, i + 1, n - 1);
                        assert(conflicts_upto(mappings, i + 1).len() == l + 1);
                        assert(l < k);
                        assert(m[i].parent_fd == duplicates[l]);
                        assert(duplicates[l] != duplicates[k]);
                        assert(!table.contains_key(duplicates[l]));
                    } else {
                        assert(m[i] == mappings[i]);
                        assert(table.contains_key(mappings[i].parent_fd));
                        assert(mappings[i].parent_fd != mappings[n - 1].parent_fd);
                    }
                }
            }
            assert forall|i: int| n <= i < mappings.len() implies t.contains_key(
                (#[trigger] mappings[i]).parent_fd,
            ) && t[mappings[i].parent_fd].file == table[mappings[i].parent_fd].file by {
                assert(mappings[n - 1].parent_fd != mappings[i].parent_fd);
                assert(table.contains_key(mappings[i].parent_fd));
            }
        } else {
            assert(m[n - 1] == mappings[n - 1]);
        }
    }
}

proof fn lemma_actions(m: Seq<FdMapping>, table: Map<i32, Slot>, n: int)
    requires
        0 <= n <= m.len(),
        forall|i: int| 0 <= i < m.len() ==> table.contains_key((#[trigger] m[i]).parent_fd),
        forall|i: int, j: int|
            #![trigger m[i], m[j]]
            0 <= i < j < m.len() ==> m[i].child_fd != m[j].child_fd,
        forall|i: int, j: int|
            #![trigger m[i], m[j]]
            0 <= i < m.len() && 0 <= j < m.len() && m[i].parent_fd == m[j].child_fd ==> i == j,
    ensures
        ({
            let t = after_all(table, actions_of(m).take(n));
            &&& forall|i: int|
                0 <= i < n ==> t.contains_key((#[trigger] m[i]).child_fd) && t[m[i].child_fd] == (
                Slot { file: table[m[i].parent_fd].file, closed_on_exec: false })
            &&& forall|i: int|
                n <= i < m.len() ==> t.contains_key((#[trigger] m[i]).parent_fd)
                    && t[m[i].parent_fd].file == table[m[i].parent_fd].file
        }),
    decreases n,
{
    let actions = actions_of(m);
    if n > 0 {
        lemma_actions(m, table, n - 1);
        let before = after_all(table, actions.take(n - 1));
        let t = after_all(table, actions.take(n));
        assert(actions.take(n).drop_last() =~= actions.take(n - 1));
        assert(actions.take(n).last() == actions[n - 1]);
        assert(t == after(before, actions[n - 1]));
        let last = m[n - 1];
        assert forall|i: int| 0 <= i < n implies t.contains_key((#[trigger] m[i]).child_fd)
            && t[m[i].child_fd] == (Slot {
            file: table[m[i].parent_fd].file,
            closed_on_exec: false,
        }) by {
            if i < n - 1 {
                assert(m[i].child_fd != m[n - 1].child_fd);
            }
        }
        assert forall|i: int| n <= i < m.len() implies t.contains_key((#[trigger] m[i]).parent_fd)
            && t[m[i].parent_fd].file == table[m[i].parent_fd].file by {
            assert(m[i].parent_fd != m[n - 1].child_fd);
        }
    } else {
        assert(actions.take(0) =~= Seq::<FdAction>::empty());
    }
}

/// Once a context has been applied, every descriptor that was handed over is
/// open in the child under its number, and stays open on `exec`.
///
/// `table` is what was open before, and `duplicates` is where the conflicting
/// descriptors came to be moved, at `temporary` or above.
pub proof fn law_apply(
    mappings: Seq<FdMapping>,
    duplicates: Seq<i32>,
    table: Map<i32, Slot>,
    temporary: i32,
)
    requires
        applicable(mappings, table),
        fresh(duplicates, table, temporary),
        duplicates.len() == conflicts_of(mappings).len(),
        forall|i: int| 0 <= i < mappings.len() ==> (#[trigger] mappings[i]).child_fd < temporary,
    ensures
        ({
            let moved = after_all(table, moves_upto(mappings, duplicates, mappings.len() as int));
            let done = after_all(moved, actions_of(resolved(mappings, duplicates)));
            forall|i: int|
                0 <= i < mappings.len() ==> done.contains_key((#[trigger] mappings[i]).child_fd)
                    && done[mappings[i].child_fd] == (Slot {
                    file: table[mappings[i].parent_fd].file,
                    closed_on_exec: false,
                })
        }),
{
    let n = mappings.len() as int;
    let m = resolved(mappings, duplicates);
    lemma_moves(mappings, duplicates, table, temporary, n);
    let moved = after_all(table, moves_upto(mappings, duplicates, n));
    assert forall|i: int, j: int|
        #![trigger m[i], m[j]]
        0 <= i < j < m.len() implies m[i].child_fd != m[j].child_fd by {
        assert(mappings[i].child_fd != mappings[j].child_fd);
    }
    assert forall|i: int, j: int|
        #![trigger m[i], m[j]]
        0 <= i < m.len() && 0 <= j < m.len() && m[i].parent_fd == m[j].child_fd implies i == j by {
        assert(m[j].child_fd == mappings[j].child_fd);
        if conflicting(mappings, i) {
            let l = conflicts_upto(mappings, i).len() as int;
            lemma_conflicts_len(mappings, i + 1, n);
            assert(conflicts_upto(mappings, i + 1).len() == l + 1);
            assert(temporary <= duplicates[l]);
            assert(mappings[j].child_fd < temporary);
        } else {
            assert(m[i] == mappings[i]);
            assert(is_child_fd(mappings, mappings[i].parent_fd));
            assert(mappings[i].child_fd == mappings[j].child_fd);
        }
    }
    lemma_actions(m, moved, n);
    assert(actions_of(m).take(n) =~= actions_of(m));
    assert forall|i: int| 0 <= i < mappings.len() implies ({
        let done = after_all(moved, actions_of(m));
        done.contains_key((#[trigger] mappings[i]).child_fd) && done[mappings[i].child_fd] == (
        Slot { file: table[mappings[i].parent_fd].file, closed_on_exec: false })
    }) by {
        assert(m[i].child_fd == mappings[i].child_fd);
    }
}

/// The descriptors that have to be moved out of the way are those that stand, under
/// their own number, where another one is to go; each is named once, in order.
pub proof fn law_conflicts(mappings: Seq<FdMapping>)
    requires
        mappings.len() <= usize::MAX,
    ensures
        ({
            let found = conflicts_of(mappings);
            &&& forall|k: int, l: int|
                #![trigger found[k], found[l]]
                0 <= k < l < found.len() ==> found[k] < found[l]
            &&& forall|k: int|
                0 <= k < found.len() ==> {
                    let i = #[trigger] found[k] as int;
                    &&& i < mappings.len()
                    &&& mappings[i].parent_fd != mappings[i].child_fd
                    &&& exists|j: int|
                        0 <= j < mappings.len() && (#[trigger] mappings[j]).child_fd
                            == mappings[i].parent_fd
                }
            &&& forall|i: int, j: int|
                #![trigger mappings[i], mappings[j]]
                0 <= i < mappings.len() && 0 <= j < mappings.len() && i != j
                    && mappings[j].child_fd == mappings[i].parent_fd && mappings[i].child_fd
                    != mappings[i].parent_fd ==> found.contains(i as usize)
        }),
{
    lemma_conflicts(mappings, mappings.len() as int);
    let found = conflicts_of(mappings);
    assert forall|k: int| 0 <= k < found.len() implies {
        let i = #[trigger] found[k] as int;
        &&& i < mappings.len()
        &&& mappings[i].parent_fd != mappings[i].child_fd
        &&& exists|j: int|
            0 <= j < mappings.len() && (#[trigger] mappings[j]).child_fd == mappings[i].parent_fd
    } by {
        assert(conflicting(mappings, found[k] as int));
    }
    assert forall|i: int, j: int|
        #![trigger mappings[i], mappings[j]]
        0 <= i < mappings.len() && 0 <= j < mappings.len() && i != j && mappings[j].child_fd
            == mappings[i].parent_fd && mappings[i].child_fd
            != mappings[i].parent_fd implies found.contains(i as usize) by {
        assert(is_child_fd(mappings, mappings[i].parent_fd));
        assert(conflicting(mappings, i));
    }
}

proof fn lemma_conflicts(mappings: Seq<FdMapping>, n: int)
    requires
        0 <= n <= mappings.len() <= usize::MAX,
    ensures
        ({
            let found = conflicts_upto(mappings, n);
            &&& forall|k: int, l: int|
                #![trigger found[k], found[l]]
                0 <= k < l < found.len() ==> found[k] < found[l]
            &&& forall|k: int|
                0 <= k < found.len() ==> (#[trigger] found[k]) < n && conflicting(
                    mappings,
                    found[k] as int,
                )
            &&& forall|i: int|
                0 <= i < n && #[trigger] conflicting(mappings, i) ==> found.contains(i as usize)
        }),
    decreases n,
{
    if n > 0 {
        lemma_conflicts(mappings, n - 1);
        let before = conflicts_upto(mappings, n - 1);
        let found = conflicts_upto(mappings, n);
        assert forall|i: int|
            0 <= i < n && #[trigger] conflicting(mappings, i) implies found.contains(
            i as usize,
        ) by {
            if i < n - 1 {
                let k = choose|k: int| 0 <= k < before.len() && before[k] == i as usize;
                assert(found[k] == i as usize);
            } else {
                assert(found[before.len() as int] == i as usize);
            }
        }
    }
}

proof fn lemma_after_frame(table: Map<i32, Slot>, actions: Seq<FdAction>, fd: i32)
    requires
        forall|i: int|
            0 <= i < actions.len() ==> match #[trigger] actions[i] {
                FdAction::Move { from, to } => from != fd && to != fd,
                FdAction::Keep { fd: kept } => kept != fd,
                FdAction::Duplicate { from: _, to } => to != fd,
            },
    ensures
        after_all(table, actions).contains_key(fd) == table.contains_key(fd),
        table.contains_key(fd) ==> after_all(table, actions)[fd] == table[fd],
    decreases actions.len(),
{
    if actions.len() > 0 {
        let init = actions.drop_last();
        assert forall|i: int| 0 <= i < init.len() implies match #[trigger] init[i] {
            FdAction::Move { from, to } => from != fd && to != fd,
            FdAction::Keep { fd: kept } => kept != fd,
            FdAction::Duplicate { from: _, to } => to != fd,
        } by {
            assert(init[i] == actions[i]);
        }
        lemma_after_frame(table, init, fd);
        assert(actions.last() == actions[actions.len() - 1]);
    }
}

proof fn lemma_moves_frame(mappings: Seq<FdMapping>, duplicates: Seq<i32>, n: int, fd: i32)
    requires
        0 <= n <= mappings.len(),
        duplicates.len() == conflicts_of(mappings).len(),
        !duplicates.contains(fd),
        forall|i: int| 0 <= i < mappings.len() ==> (#[trigger] mappings[i]).parent_fd != fd,
    ensures
        forall|i: int|
            0 <= i < moves_upto(mappings, duplicates, n).len() ==> match #[trigger] moves_upto(
                mappings,
                duplicates,
                n,
            )[i] {
                FdAction::Move { from, to } => from != fd && to != fd,
                _ => false,
            },
    decreases n,
{
    if n > 0 {
        lemma_moves_frame(mappings, duplicates, n - 1, fd);
        if conflicting(mappings, n - 1) {
            let k = conflicts_upto(mappings, n - 1).len() as int;
            lemma_conflicts_len(mappings, n, mappings.len() as int);
            assert(conflicts_upto(mappings, n).len() == k + 1);
            assert(duplicates.contains(duplicates[k]));
            assert(mappings[n - 1].parent_fd != fd);
        }
    }
}

/// A descriptor that is neither handed over nor in the place of one that is stays
/// as it was.
pub proof fn law_apply_leaves_others(
    mappings: Seq<FdMapping>,
    duplicates: Seq<i32>,
    table: Map<i32, Slot>,
    fd: i32,
)
    requires
        duplicates.len() == conflicts_of(mappings).len(),
        !duplicates.contains(fd),
        forall|i: int|
            0 <= i < mappings.len() ==> (#[trigger] mappings[i]).parent_fd != fd
                && mappings[i].child_fd != fd,
    ensures
        ({
            let moved = after_all(table, moves_upto(mappings, duplicates, mappings.len() as int));
            let done = after_all(moved, actions_of(resolved(mappings, duplicates)));
            done.contains_key(fd) == table.contains_key(fd) && (table.contains_key(fd) ==> done[fd]
                == table[fd])
        }),
{
    let n = mappings.len() as int;
    lemma_moves_frame(mappings, duplicates, n, fd);
    let moves = moves_upto(mappings, duplicates, n);
    lemma_after_frame(table, moves, fd);
    let m = resolved(mappings, duplicates);
    let actions = actions_of(m);
    assert forall|i: int| 0 <= i < actions.len() implies match #[trigger] actions[i] {
        FdAction::Move { from, to } => from != fd && to != fd,
        FdAction::Keep { fd: kept } => kept != fd,
        FdAction::Duplicate { from: _, to } => to != fd,
    } by {
        assert(m[i].child_fd == mappings[i].child_fd);
        assert(mappings[i].child_fd != fd);
    }
    lemma_after_frame(after_all(table, moves), actions, fd);
}

/// A context has room for as many descriptors as it was made for, and for one number
/// more, as far as there are numbers; they start behind the standard ones and come
/// one after the other.
pub proof fn law_capacity(capacity: i32)
    requires
        0 <= capacity <= i32::MAX - 5,
    ensures
        ({
            let all = numbers(3, last_number(capacity));
            &&& all.len() > capacity
            &&& forall|i: int| 0 <= i < all.len() ==> #[trigger] all[i] == 3 + i
        }),
        last_number(i32::MAX) == i32::MAX,
{
}

} // verus!
