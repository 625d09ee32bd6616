//! What the system is asked: randomness, its name, the process.
use vstd::prelude::*;

verus! {

/// An error number of the system.
#[verifier::external_type_specification]
#[verifier::external_body]
pub struct ExErrno(rustix::io::Errno);

/// `u32::from_ne_bytes`: the number that four bytes stand for on this machine,
/// least or most significant byte first.
#[verifier::external_body]
fn from_ne_bytes(bytes: [u8; 4]) -> (r: u32)
    ensures
        r == bytes@[0] + 0x100 * bytes@[1] + 0x1_0000 * bytes@[2] + 0x100_0000 * bytes@[3] || r
            == bytes@[3] + 0x100 * bytes@[2] + 0x1_0000 * bytes@[1] + 0x100_0000 * bytes@[0],
{
    u32::from_ne_bytes(bytes)
}

/// The flags of `getrandom` for bytes that are good for a secret.
pub const RANDOM_SECURE: u32 = 0;

/// The flag of `getrandom` for bytes that are merely unlikely to repeat.
pub const RANDOM_INSECURE: u32 = 4;

/// `rustix::rand::getrandom`: a buffer of `N` bytes is handed to the system to
/// be filled with random bytes, or the system refuses. Nothing is claimed of
/// the bytes.
#[verifier::external_body]
fn getrandom<const N: usize>(flags: u32) -> (r: Result<[u8; N], rustix::io::Errno>)
    requires
        flags == RANDOM_SECURE || flags == RANDOM_INSECURE,
{
    let mut buffer = [0u8; N];
    rustix::rand::getrandom(&mut buffer, rustix::rand::GetRandomFlags::from_bits_retain(flags))
        .map(|_| buffer)
}

/// Whether this came back when the system was asked for `N` random bytes with
/// the given flags.
pub closed spec fn is_random<const N: usize>(
    flags: u32,
    r: Result<[u8; N], rustix::io::Errno>,
) -> bool {
    call_ensures(getrandom::<N>, (flags,), r)
}

/// Asks the system for `N` random bytes.
pub(crate) fn random<const N: usize>(flags: u32) -> (r: Result<[u8; N], rustix::io::Errno>)
    requires
        flags == RANDOM_SECURE || flags == RANDOM_INSECURE,
    ensures
        is_random::<N>(flags, r),
{
    getrandom::<N>(flags)
}

/// Whether this is the number that four bytes stand for on this machine.
pub closed spec fn is_native(bytes: [u8; 4], n: u32) -> bool {
    call_ensures(from_ne_bytes, (bytes,), n)
}

/// The number that four bytes stand for on this machine.
pub(crate) fn native(bytes: [u8; 4]) -> (r: u32)
    ensures
        is_native(bytes, r),
{
    from_ne_bytes(bytes)
}

/// `rustix::system::uname`: the name of the host, without the zero byte that
/// ends it. Which name that is depends on the machine.
#[verifier::external_body]
fn nodename() -> (r: Vec<u8>)
    ensures
        forall|i: int| 0 <= i < r@.len() ==> #[trigger] r@[i] != 0,
{
    rustix::system::uname().nodename().to_bytes().to_vec()
}

/// Whether this came back when the system was asked for the name of the host.
pub closed spec fn is_hostname(name: Seq<u8>) -> bool {
    exists|r: Vec<u8>| #[trigger] call_ensures(nodename, (), r) && r@ == name
}

/// Asks the system for the name of the host.
pub(crate) fn hostname() -> (r: Vec<u8>)
    ensures
        is_hostname(r@),
        forall|i: int| 0 <= i < r@.len() ==> #[trigger] r@[i] != 0,
{
    nodename()
}

/// `rustix::process::getpid`: the number of this process, which is never zero.
#[verifier::external_body]
fn getpid() -> (r: i32)
    ensures
        r != 0,
{
    rustix::process::getpid().as_raw_nonzero().get()
}

/// Whether this came back when the system was asked for the number of this
/// process.
pub closed spec fn is_pid(pid: i32) -> bool {
    call_ensures(getpid, (), pid)
}

/// Asks the system for the number of this process.
pub(crate) fn pid() -> (r: i32)
    ensures
        is_pid(r),
        r != 0,
{
    getpid()
}

/// A secret is drawn without any flags, which is how the system gives bytes that are
/// good for one; the other flag is for bytes that it gives at any time.
pub proof fn law_flags()
    ensures
        RANDOM_SECURE == 0,
        RANDOM_INSECURE == 4,
{
}

} // verus!
