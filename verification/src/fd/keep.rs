//! Descriptors that keep their numbers in the child.
use vstd::prelude::*;

use crate::fd::PassedFd;

verus! {

/// The descriptors that a command is to inherit.
///
/// A context should be the only thing that hands descriptors to its command.
pub struct FdContext {
    pub parent_fds: Vec<i32>,
    pub is_current: bool,
}

impl FdContext {
    /// A context without descriptors.
    pub fn new() -> (r: Self)
        ensures
            r.parent_fds@.len() == 0,
            !r.is_current,
    {
        FdContext { parent_fds: Vec::new(), is_current: false }
    }

    /// Hands a descriptor over, under the number it has.
    pub fn pass(&mut self, fd: i32) -> (r: PassedFd)
        ensures
            r.fd == fd,
            final(self).parent_fds@ == old(self).parent_fds@.push(fd),
            final(self).is_current == old(self).is_current,
    {
        self.parent_fds.push(fd);
        PassedFd { fd }
    }

    /// Hands the context over to the child, once each of its descriptors has been
    /// marked to stay open on `exec`.
    pub fn inherit(&mut self)
        ensures
            final(self).parent_fds@ == old(self).parent_fds@,
            final(self).is_current,
    {
        self.is_current = true;
    }

    /// The descriptors to close once the context is no longer needed: none in
    /// the child that inherits them, all of them elsewhere.
    pub fn into_closed(self) -> (r: Vec<i32>)
        ensures
            r@ == (if self.is_current {
                Seq::empty()
            } else {
                self.parent_fds@
            }),
    {
        if self.is_current {
            Vec::new()
        } else {
            self.parent_fds
        }
    }
}

} // verus!
