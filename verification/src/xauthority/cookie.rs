//! The shared secret by which clients are let in.
use vstd::prelude::*;
use zeroize::Zeroize;

use crate::text;

verus! {

/// `Zeroize::zeroize` on a byte array: every byte becomes zero.
#[verifier::external_body]
fn zeroize_bytes(bytes: &mut [u8; 16])
    ensures
        final(bytes)@ == Seq::new(16, |i: int| 0u8),
    opens_invariants none
    no_unwind
{
    bytes.zeroize();
}

/// An authorization cookie. The bytes are wiped when it goes out of scope.
///
/// Cookies are the only authorization method that is currently in use.
pub struct Cookie {
    bytes: [u8; 16],
}

impl View for Cookie {
    type V = Seq<u8>;

    closed spec fn view(&self) -> Seq<u8> {
        self.bytes@
    }
}

impl Drop for Cookie {
    fn drop(&mut self)
        ensures
            final(self)@ == Seq::new(16, |i: int| 0u8),
        opens_invariants none
        no_unwind
    {
        self.wipe();
    }
}

impl Clone for Cookie {
    fn clone(&self) -> (r: Self)
        ensures
            r@ == self@,
    {
        Cookie { bytes: self.bytes }
    }
}

impl Cookie {
    /// 128 random bits.
    pub const BYTES_LEN: usize = 16;

    /// The name of the authorization method.
    pub const AUTH_NAME: &'static str = "MIT-MAGIC-COOKIE-1";

    /// A cookie of the given random bytes.
    pub fn new(random_bytes: [u8; 16]) -> (r: Self)
        ensures
            r@ == random_bytes@,
    {
        Cookie { bytes: random_bytes }
    }

    /// Overwrites the bytes of the cookie.
    pub fn wipe(&mut self)
        ensures
            final(self)@ == Seq::new(16, |i: int| 0u8),
        opens_invariants none
        no_unwind
    {
        zeroize_bytes(&mut self.bytes);
    }

    /// The bytes of the cookie.
    pub fn data(&self) -> (r: Vec<u8>)
        ensures
            r@ == self@,
    {
        let mut r: Vec<u8> = Vec::new();
        let mut i: usize = 0;
        while i < 16
            invariant
                i <= 16,
                r@ == self.bytes@.take(i as int),
            decreases 16 - i,
        {
            r.push(self.bytes[i]);
            i = i + 1;
            assert(self.bytes@.take(i as int) =~= self.bytes@.take(i - 1).push(self.bytes@[i - 1]));
        }
        assert(self.bytes@.take(16) =~= self.bytes@);
        r
    }

    /// The name of the method and the bytes of the cookie.
    pub fn raw_data(&self) -> (r: (Vec<u8>, Vec<u8>))
        ensures
            r.0@ == text::utf8(Self::AUTH_NAME@),
            r.1@ == self@,
    {
        (text::bytes_of(Self::AUTH_NAME), self.data())
    }
}

/// A cookie holds exactly as many bytes as its length says.
pub proof fn law_cookie_len(cookie: Cookie)
    ensures
        cookie@.len() == Cookie::BYTES_LEN,
{
}

} // verus!
