//! Descriptors that the service manager has opened.
use vstd::prelude::*;

use crate::env::container;
use crate::env::container::Env;
use crate::env::container::EnvRaw;
use crate::env::parse;
use crate::env::parse::EnvError;
use crate::env::parse::EnvironmentParse;
use crate::env::parse::EnvironmentVariable;
use crate::env::parse::ParseFailure;
use crate::fd::remap;
use crate::system;
use crate::text;

verus! {

/// The number of the first descriptor that is handed over.
pub const SD_LISTEN_FDS_START: i32 = 3;

/// The process that the descriptors are meant for. Its number is not zero.
#[derive(Clone, Copy)]
pub struct ListenPID {
    pub pid: i32,
}

impl View for ListenPID {
    type V = i32;

    open spec fn view(&self) -> i32 {
        self.pid
    }
}

impl EnvironmentParse for ListenPID {
    open spec fn serialized(value: i32) -> Seq<u8> {
        text::utf8(text::signed_digits(value as int))
    }

    open spec fn deserialized(raw: Seq<u8>) -> Result<i32, ParseFailure> {
        match parse::as_i32(raw) {
            Ok(n) => if n == 0 {
                Err(ParseFailure::Malformed)
            } else {
                Ok(n as i32)
            },
            Err(e) => Err(e),
        }
    }

    fn env_serialize(self) -> (raw: Vec<u8>) {
        let number = text::signed_decimal(self.pid);
        text::bytes_of(number.as_str())
    }

    fn env_deserialize(raw: Vec<u8>) -> (r: Result<Self, ParseFailure>) {
        match parse::read_i32(raw) {
            Ok(n) => if n == 0 {
                Err(ParseFailure::Malformed)
            } else {
                Ok(ListenPID { pid: n })
            },
            Err(e) => Err(e),
        }
    }
}

impl EnvironmentVariable for ListenPID {
    open spec fn key_text() -> Seq<char> {
        "LISTEN_PID"@
    }

    fn key() -> (r: &'static str) {
        "LISTEN_PID"
    }
}

/// The last of the descriptors.
#[derive(Clone, Copy)]
pub struct ListenFDs {
    pub last: i32,
}

impl View for ListenFDs {
    type V = i32;

    open spec fn view(&self) -> i32 {
        self.last
    }
}

impl EnvironmentParse for ListenFDs {
    open spec fn serialized(value: i32) -> Seq<u8> {
        text::utf8(text::signed_digits(value as int))
    }

    open spec fn deserialized(raw: Seq<u8>) -> Result<i32, ParseFailure> {
        match parse::as_i32(raw) {
            Ok(n) => Ok(n as i32),
            Err(e) => Err(e),
        }
    }

    fn env_serialize(self) -> (raw: Vec<u8>) {
        let number = text::signed_decimal(self.last);
        text::bytes_of(number.as_str())
    }

    fn env_deserialize(raw: Vec<u8>) -> (r: Result<Self, ParseFailure>) {
        match parse::read_i32(raw) {
            Ok(n) => Ok(ListenFDs { last: n }),
            Err(e) => Err(e),
        }
    }
}

impl EnvironmentVariable for ListenFDs {
    open spec fn key_text() -> Seq<char> {
        "LISTEN_FDS"@
    }

    fn key() -> (r: &'static str) {
        "LISTEN_FDS"
    }
}

/// Why there are no descriptors.
#[derive(Clone, Copy, PartialEq, Eq, Structural, Debug)]
pub enum ListenError {
    /// The environment does not say for whom they are.
    NoPid(EnvError),
    /// They are for another process.
    OtherProcess,
    /// The environment does not say which they are.
    NoFds(EnvError),
    /// There is not exactly one, but this many.
    WrongCount(usize),
}

/// The descriptors that the environment hands to a process.
pub open spec fn listened<E: EnvRaw>(env: &E, pid: i32) -> Result<Seq<i32>, ListenError> {
    match container::variable_in::<E, ListenPID>(env) {
        Err(e) => Err(ListenError::NoPid(e)),
        Ok(meant) => if meant != pid {
            Err(ListenError::OtherProcess)
        } else {
            match container::variable_in::<E, ListenFDs>(env) {
                Err(e) => Err(ListenError::NoFds(e)),
                Ok(last) => Ok(remap::numbers(SD_LISTEN_FDS_START as int, last as int)),
            }
        },
    }
}

/// The descriptors that the environment hands to the process of the given
/// number.
pub fn listen_fds_of<E: Env>(env: &E, pid: i32) -> (r: Result<Vec<i32>, ListenError>)
    requires
        env.well_formed(),
    ensures
        match r {
            Ok(fds) => listened(env, pid) == Ok::<Seq<i32>, ListenError>(fds@),
            Err(e) => listened(env, pid) == Err::<Seq<i32>, ListenError>(e),
        },
{
    match env.get::<ListenPID>() {
        Ok(meant) => {
            if meant.pid != pid {
                return Err(ListenError::OtherProcess);
            }
        },
        Err(e) => {
            return Err(ListenError::NoPid(e));
        },
    }
    let last: i32 = match env.get::<ListenFDs>() {
        Ok(fds) => fds.last,
        Err(e) => {
            return Err(ListenError::NoFds(e));
        },
    };
    let ghost all = remap::numbers(SD_LISTEN_FDS_START as int, last as int);
    let mut fds: Vec<i32> = Vec::new();
    if last >= SD_LISTEN_FDS_START {
        let mut next: i32 = SD_LISTEN_FDS_START;
        while next < last
            invariant
                SD_LISTEN_FDS_START <= next <= last,
                all == remap::numbers(SD_LISTEN_FDS_START as int, last as int),
                fds@ == all.take(next - SD_LISTEN_FDS_START),
            decreases last - next,
        {
            fds.push(next);
            next = next + 1;
            assert(fds@ =~= all.take(next - SD_LISTEN_FDS_START));
        }
        fds.push(last);
    }
    assert(fds@ =~= all);
    Ok(fds)
}

/// The descriptors that the environment hands to this process.
pub fn listen_fds<E: Env>(env: &E) -> (r: Result<Vec<i32>, ListenError>)
    requires
        env.well_formed(),
    ensures
        exists|pid: i32|
            system::is_pid(pid) && match r {
                Ok(fds) => #[trigger] listened(env, pid) == Ok::<Seq<i32>, ListenError>(fds@),
                Err(e) => listened(env, pid) == Err::<Seq<i32>, ListenError>(e),
            },
{
    let pid = system::pid();
    listen_fds_of(env, pid)
}

/// The one descriptor among those that were handed over. Whoever makes a socket
/// of it has to know that it is one of the right type.
pub fn only_fd(fds: &Vec<i32>) -> (r: Result<i32, ListenError>)
    ensures
        match r {
            Ok(fd) => fds@ == seq![fd],
            Err(e) => fds@.len() != 1 && e == ListenError::WrongCount(fds@.len() as usize),
        },
{
    if fds.len() != 1 {
        return Err(ListenError::WrongCount(fds.len()));
    }
    assert(fds@ =~= seq![fds@[0]]);
    Ok(fds[0])
}

/// The one descriptor that the environment hands to this process.
pub fn listen_fd_simple<E: Env>(env: &E) -> (r: Result<i32, ListenError>)
    requires
        env.well_formed(),
    ensures
        exists|pid: i32|
            system::is_pid(pid) && match r {
                Ok(fd) => #[trigger] listened(env, pid) == Ok::<Seq<i32>, ListenError>(seq![fd]),
                Err(e) => match listened(env, pid) {
                    Ok(fds) => fds.len() != 1 && e == ListenError::WrongCount(
                        fds.len() as usize,
                    ),
                    Err(why) => e == why,
                },
            },
{
    match listen_fds(env) {
        Ok(fds) => only_fd(&fds),
        Err(e) => Err(e),
    }
}

/// Nothing is handed to a process that it is not meant for.
pub proof fn law_meant_for_one<E: EnvRaw>(env: &E, a: i32, b: i32)
    requires
        listened(env, a) is Ok,
        listened(env, b) is Ok,
    ensures
        a == b,
{
}

/// A process is handed descriptors exactly where the environment means it and says
/// which: all of them from the third to the last, in order. Otherwise it learns what
/// is missing.
pub proof fn law_listened<E: EnvRaw>(env: &E, pid: i32)
    ensures
        ({
            let meant = container::variable::<ListenPID>(env.lookup("LISTEN_PID"@));
            let last = container::variable::<ListenFDs>(env.lookup("LISTEN_FDS"@));
            &&& listened(env, pid) is Ok <==> meant == Ok::<i32, EnvError>(pid) && last is Ok
            &&& listened(env, pid) matches Ok(fds) ==> {
                &&& last->Ok_0 < 3 ==> fds.len() == 0
                &&& last->Ok_0 >= 3 ==> fds.len() == last->Ok_0 - 2
                &&& forall|i: int| 0 <= i < fds.len() ==> #[trigger] fds[i] == 3 + i
            }
            &&& meant matches Err(e) ==> listened(env, pid) == Err::<Seq<i32>, ListenError>(
                ListenError::NoPid(e),
            )
            &&& meant is Ok && meant->Ok_0 != pid ==> listened(env, pid) == Err::<
                Seq<i32>,
                ListenError,
            >(ListenError::OtherProcess)
            &&& meant == Ok::<i32, EnvError>(pid) && last is Err ==> listened(env, pid) == Err::<
                Seq<i32>,
                ListenError,
            >(ListenError::NoFds(last->Err_0))
        }),
{
}

/// The numbers are read from digits, with a sign or without; that of a process is
/// not zero.
pub proof fn law_listen_numbers(s: Seq<char>)
    requires
        s.len() > 0,
        forall|i: int| 0 <= i < s.len() ==> '0' <= #[trigger] s[i] <= '9',
    ensures
        ListenPID::deserialized(text::utf8(s)) is Ok <==> 0 < text::number_value(s) <= i32::MAX,
        ListenPID::deserialized(text::utf8(s)) matches Ok(pid) ==> pid == text::number_value(s),
        ListenFDs::deserialized(text::utf8(s)) is Ok <==> text::number_value(s) <= i32::MAX,
        ListenFDs::deserialized(text::utf8(s)) matches Ok(last) ==> last == text::number_value(s),
        text::number_value(s) <= i32::MAX ==> ListenFDs::deserialized(
            text::utf8(seq!['-'] + s),
        ) == Ok::<i32, ParseFailure>((-text::number_value(s)) as i32),
{
    text::law_utf8_round_trip(seq!['-'] + s);
    assert((seq!['-'] + s).drop_first() =~= s);
    text::law_utf8_round_trip(s);
    assert(s[0] != '+' && s[0] != '-');
    assert(text::is_number(s));
}

} // verus!
