//! Numbers for descriptors in the child, out of a range.
use vstd::prelude::*;

use crate::fd::FdsExhausted;
use crate::fd::remap::FdMapping;

verus! {

/// The descriptors that a child is given, numbered from a half-open range.
pub struct FdContext {
    next: u32,
    end: u32,
    mappings: Vec<FdMapping>,
}

/// A descriptor, under the number that it has in the child.
pub struct PassedFd {
    pub fd: u32,
}

impl PassedFd {
    /// The number of the descriptor.
    pub fn num(&self) -> (r: u32)
        ensures
            r == self.fd,
    {
        self.fd
    }
}

/// The number of a descriptor, as the system takes it.
pub open spec fn raw_fd(fd: u32) -> i32 {
    fd as i32
}

proof fn lemma_raw_fd_injective(a: u32, b: u32)
    requires
        raw_fd(a) == raw_fd(b),
    ensures
        a == b,
{
    assert(a as i32 == b as i32 ==> a == b) by (bit_vector);
}

impl FdContext {
    /// The number that the next descriptor gets.
    pub closed spec fn next(&self) -> u32 {
        self.next
    }

    /// The first number that is not to be given out.
    pub closed spec fn end(&self) -> u32 {
        self.end
    }

    /// What has been handed over so far.
    pub closed spec fn mapped(&self) -> Seq<FdMapping> {
        self.mappings@
    }

    /// Every number that has been given out is one that came before the next.
    pub closed spec fn well_formed(&self) -> bool {
        exists|numbers: Seq<u32>| #[trigger] self.numbered(numbers)
    }

    spec fn numbered(&self, numbers: Seq<u32>) -> bool {
        &&& numbers.len() == self.mappings@.len()
        &&& forall|i: int|
            0 <= i < numbers.len() ==> self.mappings@[i].child_fd == raw_fd(#[trigger] numbers[i])
        &&& forall|i: int| 0 <= i < numbers.len() ==> #[trigger] numbers[i] < self.next
        &&& forall|i: int, j: int| 0 <= i < j < numbers.len() ==> numbers[i] < numbers[j]
    }

    /// A context whose numbers start at `start` and stay below `end`.
    pub fn new(start: u32, end: u32) -> (r: Self)
        ensures
            r.well_formed(),
            r.next() == start,
            r.end() == end,
            r.mapped().len() == 0,
    {
        let r = FdContext { next: start, end, mappings: Vec::new() };
        assert(r.numbered(Seq::empty()));
        r
    }

    /// Hands a descriptor over, under the next number.
    pub fn pass(&mut self, fd: i32) -> (r: Result<PassedFd, FdsExhausted>)
        requires
            old(self).well_formed(),
        ensures
            final(self).well_formed(),
            final(self).end() == old(self).end(),
            match r {
                Ok(passed) => {
                    &&& old(self).next() < old(self).end()
                    &&& passed.fd == old(self).next()
                    &&& final(self).next() == old(self).next() + 1
                    &&& final(self).mapped() == old(self).mapped().push(
                        (FdMapping { parent_fd: fd, child_fd: raw_fd(passed.fd) }),
                    )
                },
                Err(_) => {
                    &&& old(self).next() >= old(self).end()
                    &&& final(self).next() == old(self).next()
                    &&& final(self).mapped() == old(self).mapped()
                },
            },
    {
        if self.next >= self.end {
            return Err(FdsExhausted);
        }
        let ghost numbers = choose|numbers: Seq<u32>| #[trigger] self.numbered(numbers);
        let number = self.next;
        self.next = self.next + 1;
        self.mappings.push(
            FdMapping {
                parent_fd: fd,
                child_fd: #[verifier::truncate]
                (number as i32),
            },
        );
        assert(self.numbered(numbers.push(number)));
        Ok(PassedFd { fd: number })
    }

    /// What was handed over.
    ///
    /// No two descriptors have the same number in the child, so that they can
    /// be put in place without a collision.
    pub fn into_mappings(self) -> (r: Vec<FdMapping>)
        requires
            self.well_formed(),
        ensures
            r@ == self.mapped(),
            forall|i: int, j: int|
                #![trigger r@[i], r@[j]]
                0 <= i < j < r@.len() ==> r@[i].child_fd != r@[j].child_fd,
    {
        proof {
            let numbers = choose|numbers: Seq<u32>| #[trigger] self.numbered(numbers);
            assert forall|i: int, j: int|
                #![trigger self.mappings@[i], self.mappings@[j]]
                0 <= i < j < self.mappings@.len() implies self.mappings@[i].child_fd
                != self.mappings@[j].child_fd by {
                assert(numbers[i] < numbers[j]);
                if self.mappings@[i].child_fd == self.mappings@[j].child_fd {
                    lemma_raw_fd_injective(numbers[i], numbers[j]);
                }
            }
        }
        self.mappings
    }
}

/// The system takes the numbers as they are, as far as it has them.
pub proof fn law_raw_fd(fd: u32)
    requires
        fd <= i32::MAX,
    ensures
        raw_fd(fd) == fd,
{
}

} // verus!
