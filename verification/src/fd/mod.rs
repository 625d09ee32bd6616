//! Handing file descriptors to a child process.
//!
//! [`keep`] leaves descriptors open under the numbers they have, [`remap`]
//! gives them new numbers in the child, and [`range`] plans such numbers for a
//! mapping that is applied elsewhere.
use vstd::prelude::*;

use crate::path;
use crate::path::UnixPath;
use crate::text;

pub mod keep;
pub mod range;
pub mod remap;

verus! {

/// Why a descriptor cannot be handed over: there is no number left for it.
#[derive(Clone, Copy, PartialEq, Eq, Structural, Debug)]
pub struct FdsExhausted;

/// A descriptor, under the number that it has in the child.
pub struct PassedFd {
    pub fd: i32,
}

/// Where the child finds an open descriptor of its own.
pub open spec fn fd_path(fd: i32) -> Seq<u8> {
    path::joined(text::utf8("/proc/self/fd/"@), text::utf8(text::signed_digits(fd as int)))
}

impl PassedFd {
    /// The number of the descriptor.
    pub fn as_raw_fd(&self) -> (r: i32)
        ensures
            r == self.fd,
    {
        self.fd
    }

    /// A path that opens the descriptor in the child.
    pub fn path(&self) -> (r: UnixPath)
        ensures
            r@ == fd_path(self.fd),
    {
        let number = text::signed_decimal(self.fd);
        UnixPath::from_text("/proc/self/fd/").join_text(number.as_str())
    }
}

/// The path that opens a descriptor in the child ends in its number, and lies where
/// the system keeps the descriptors of a process.
pub proof fn law_fd_path(fd: i32)
    ensures
        fd_path(fd) == text::utf8("/proc/self/fd/"@ + text::signed_digits(fd as int)),
{
    let number = text::signed_digits(fd as int);
    reveal_strlit("/proc/self/fd/");
    text::lemma_ascii_bytes("/proc/self/fd/"@);
    let magnitude = (if fd < 0 {
        -(fd as int)
    } else {
        fd as int
    }) as nat;
    text::lemma_digits(magnitude);
    assert(text::is_digit(text::digits(magnitude)[0]));
    assert(vstd::utf8::is_ascii_chars(number)) by {
        assert forall|i: int| 0 <= i < number.len() implies '\0' <= #[trigger] number[i]
            <= '\u{7f}' by {
            if fd < 0 {
                if i > 0 {
                    assert(number[i] == text::digits(magnitude)[i - 1]);
                    assert(text::is_digit(text::digits(magnitude)[i - 1]));
                }
            } else {
                assert(text::is_digit(text::digits(magnitude)[i]));
            }
        }
    }
    text::lemma_ascii_bytes(number);
    let base = text::utf8("/proc/self/fd/"@);
    assert(base.len() == 14);
    assert(base.last() == path::slash());
    assert(number[0] != '/');
    assert(text::utf8(number)[0] == number[0] as u8);
    assert(text::utf8(number)[0] != path::slash());
    text::law_utf8_concat("/proc/self/fd/"@, number);
}

} // verus!
