//! The command lines of Xorg.
use vstd::prelude::*;

use crate::command;
use crate::command::CleanupExt;
use crate::command::CommandLine;
use crate::command::CommandView;
use crate::env::diff;
use crate::env::diff::Entry;
use crate::path::UnixPath;
use crate::text;
use crate::views;

verus! {

/// Where Xorg is found unless the user says otherwise. You may want to change
/// this if you're making a package.
pub const DEFAULT_XORG_PATH: &'static str = "/usr/lib/Xorg";

/// The arguments for a virtual terminal.
pub open spec fn vt_args(vt: Option<u32>) -> Seq<Seq<u8>> {
    match vt {
        Some(n) => command::words(seq!["vt"@ + text::digits(n as nat), "-novtswitch"@]),
        None => Seq::empty(),
    }
}

/// The arguments for a seat.
pub open spec fn seat_args(seat: Option<Seq<char>>) -> Seq<Seq<u8>> {
    match seat {
        Some(name) => command::words(seq!["-seat"@, name]),
        None => Seq::empty(),
    }
}

/// The arguments for the server's authority.
pub open spec fn auth_args(path: Seq<u8>) -> Seq<Seq<u8>> {
    seq![text::utf8("-auth"@), path]
}

/// The arguments for the descriptor to which the server writes its display.
pub open spec fn display_args(fd: i32) -> Seq<Seq<u8>> {
    command::words(seq!["-displayfd"@, text::signed_digits(fd as int)])
}

/// What Xorg finds in its environment: it may run as an ordinary user.
pub open spec fn xorg_env() -> Seq<(Seq<char>, Option<Seq<u8>>)> {
    seq![("XORG_RUN_AS_USER_OK"@, Some(text::utf8("1"@)))]
}

fn push_vt(command: &mut CommandLine, vt: Option<u32>)
    ensures
        final(command)@ == (CommandView {
            args: old(command)@.args + vt_args(vt),
            ..old(command)@
        }),
{
    match vt {
        Some(n) => {
            let number = text::decimal(n as u64);
            let terminal = text::concat("vt", number.as_str());
            command.arg(terminal.as_str());
            command.arg("-novtswitch");
            assert(command@.args =~= old(command)@.args + vt_args(Some(n)));
        },
        None => {
            assert(command@.args =~= old(command)@.args + vt_args(None));
        },
    }
}

fn push_seat(command: &mut CommandLine, seat: Option<String>)
    ensures
        final(command)@ == (CommandView {
            args: old(command)@.args + seat_args(views::viewed(seat)),
            ..old(command)@
        }),
{
    match seat {
        Some(name) => {
            command.arg("-seat");
            command.arg(name.as_str());
            assert(command@.args =~= old(command)@.args + seat_args(Some(name@)));
        },
        None => {
            assert(command@.args =~= old(command)@.args + seat_args(None));
        },
    }
}

fn push_auth(command: &mut CommandLine, path: UnixPath)
    ensures
        final(command)@ == (CommandView {
            args: old(command)@.args + auth_args(path@),
            ..old(command)@
        }),
{
    command.arg("-auth");
    command.arg_bytes(path.bytes);
    assert(command@.args =~= old(command)@.args + auth_args(path@));
}

fn push_display(command: &mut CommandLine, fd: i32)
    ensures
        final(command)@ == (CommandView {
            args: old(command)@.args + display_args(fd),
            ..old(command)@
        }),
{
    let number = text::signed_decimal(fd);
    command.arg("-displayfd");
    command.arg(number.as_str());
    assert(command@.args =~= old(command)@.args + display_args(fd));
}

fn push_env(command: &mut CommandLine)
    requires
        old(command)@.env.len() == 0,
    ensures
        final(command)@ == (CommandView { env: xorg_env(), ..old(command)@ }),
{
    command.apply_entry(
        Entry::Assign { key: "XORG_RUN_AS_USER_OK".to_owned(), value: text::bytes_of("1") },
    );
    assert(command@.env =~= xorg_env());
}

// ---------------------------------------------------------------------------
// With a log level
// ---------------------------------------------------------------------------
/// The arguments of a server that logs at a level of choice and finds its
/// authority under a descriptor.
pub open spec fn leveled_args(
    vt: Option<u32>,
    seat: Option<Seq<char>>,
    authority: Seq<u8>,
    log_level: u8,
    display_fd: i32,
    extra_args: Seq<Seq<char>>,
) -> Seq<Seq<u8>> {
    command::words(seq!["-background"@, "none"@, "-noreset"@, "-keeptty"@, "-nolisten"@, "tcp"@])
        + vt_args(vt) + seat_args(seat) + auth_args(authority) + command::words(
        seq!["-logfile /dev/null"@, "-verbose"@, text::digits(log_level as nat)],
    ) + display_args(display_fd) + command::words(extra_args)
}

/// A server that logs at a level of choice.
pub fn leveled_command(
    path: UnixPath,
    vt: Option<u32>,
    seat: Option<String>,
    authority: UnixPath,
    log_level: u8,
    display_fd: i32,
    extra_args: &Vec<String>,
) -> (r: CommandLine)
    ensures
        r@ == (CommandView {
            program: path@,
            args: leveled_args(
                vt,
                views::viewed(seat),
                authority@,
                log_level,
                display_fd,
                text::texts(extra_args@),
            ),
            env: xorg_env(),
            current_dir: None,
            silent: true,
            cleanup: true,
        }),
{
    let mut command = CommandLine::new(path);
    command.arg("-background");
    command.arg("none");
    command.arg("-noreset");
    command.arg("-keeptty");
    command.arg("-nolisten");
    command.arg("tcp");
    assert(command@.args =~= command::words(
        seq!["-background"@, "none"@, "-noreset"@, "-keeptty"@, "-nolisten"@, "tcp"@],
    ));
    push_env(&mut command);
    push_vt(&mut command, vt);
    push_seat(&mut command, seat);
    push_auth(&mut command, authority);
    command.silent = true;
    let ghost before = command@.args;
    let level = text::decimal(log_level as u64);
    command.arg("-logfile /dev/null");
    command.arg("-verbose");
    command.arg(level.as_str());
    assert(command@.args =~= before + command::words(
        seq!["-logfile /dev/null"@, "-verbose"@, text::digits(log_level as nat)],
    ));
    push_display(&mut command, display_fd);
    command.args(extra_args);
    command.with_cleanup()
}

// ---------------------------------------------------------------------------
// With the level that Xorg has by default
// ---------------------------------------------------------------------------
/// The arguments of a server whose log goes to its standard error.
pub open spec fn plain_args(
    vt: Option<u32>,
    seat: Option<Seq<char>>,
    authority: Seq<u8>,
    extra_args: Seq<Seq<char>>,
    display_fd: i32,
) -> Seq<Seq<u8>> {
    seat_args(seat) + vt_args(vt) + auth_args(authority) + command::words(
        seq!["-nolisten"@, "tcp"@, "-background"@, "none"@, "-noreset"@, "-keeptty"@],
    ) + command::words(seq!["-verbose"@, "3"@, "-logfile"@, "/dev/null"@]) + command::words(
        extra_args,
    ) + display_args(display_fd)
}

/// A server whose log goes to its standard error.
pub fn plain_command(
    path: UnixPath,
    vt: Option<u32>,
    seat: Option<String>,
    authority: UnixPath,
    extra_args: &Vec<String>,
    display_fd: i32,
) -> (r: CommandLine)
    ensures
        r@ == (CommandView {
            program: path@,
            args: plain_args(
                vt,
                views::viewed(seat),
                authority@,
                text::texts(extra_args@),
                display_fd,
            ),
            env: xorg_env(),
            current_dir: None,
            silent: false,
            cleanup: true,
        }),
{
    let mut command = CommandLine::new(path);
    push_env(&mut command);
    push_seat(&mut command, seat);
    assert(command@.args =~= seat_args(views::viewed(seat)));
    push_vt(&mut command, vt);
    push_auth(&mut command, authority);
    let ghost before = command@.args;
    command.arg("-nolisten");
    command.arg("tcp");
    command.arg("-background");
    command.arg("none");
    command.arg("-noreset");
    command.arg("-keeptty");
    assert(command@.args =~= before + command::words(
        seq!["-nolisten"@, "tcp"@, "-background"@, "none"@, "-noreset"@, "-keeptty"@],
    ));
    let ghost before = command@.args;
    command.arg("-verbose");
    command.arg("3");
    command.arg("-logfile");
    command.arg("/dev/null");
    assert(command@.args =~= before + command::words(
        seq!["-verbose"@, "3"@, "-logfile"@, "/dev/null"@],
    ));
    command.args(extra_args);
    push_display(&mut command, display_fd);
    command.with_cleanup()
}

// ---------------------------------------------------------------------------
// Laws
// ---------------------------------------------------------------------------
/// Where each argument of a server stands whose log goes to its standard error:
/// the seat comes first, the terminal second, then the authority, what every
/// server gets, all extra arguments as they are, and last the descriptor for the
/// display. There are no others.
pub proof fn law_plain_arguments(
    vt: Option<u32>,
    seat: Option<Seq<char>>,
    authority: Seq<u8>,
    extra_args: Seq<Seq<char>>,
    display_fd: i32,
)
    ensures
        ({
            let args = plain_args(vt, seat, authority, extra_args, display_fd);
            let s: int = if seat is Some {
                2
            } else {
                0
            };
            let v: int = s + if vt is Some {
                2int
            } else {
                0int
            };
            let n = extra_args.len() as int;
            &&& args.len() == v + n + 14
            &&& seat matches Some(name) ==> args[0] == text::utf8("-seat"@) && args[1]
                == text::utf8(name)
            &&& vt matches Some(number) ==> args[s] == text::utf8(
                "vt"@ + text::digits(number as nat),
            ) && args[s + 1] == text::utf8("-novtswitch"@)
            &&& args[v] == text::utf8("-auth"@)
            &&& args[v + 1] == authority
            &&& args[v + 2] == text::utf8("-nolisten"@)
            &&& args[v + 3] == text::utf8("tcp"@)
            &&& args[v + 4] == text::utf8("-background"@)
            &&& args[v + 5] == text::utf8("none"@)
            &&& args[v + 6] == text::utf8("-noreset"@)
            &&& args[v + 7] == text::utf8("-keeptty"@)
            &&& args[v + 8] == text::utf8("-verbose"@)
            &&& args[v + 9] == text::utf8("3"@)
            &&& args[v + 10] == text::utf8("-logfile"@)
            &&& args[v + 11] == text::utf8("/dev/null"@)
            &&& forall|i: int|
                0 <= i < n ==> args[v + 12 + i] == text::utf8(#[trigger] extra_args[i])
            &&& args[v + 12 + n] == text::utf8("-displayfd"@)
            &&& args[v + 13 + n] == text::utf8(text::signed_digits(display_fd as int))
        }),
{
    let args = plain_args(vt, seat, authority, extra_args, display_fd);
    let s: int = if seat is Some {
        2
    } else {
        0
    };
    let v: int = s + if vt is Some {
        2int
    } else {
        0int
    };
    assert forall|i: int| 0 <= i < extra_args.len() implies args[v + 12 + i] == text::utf8(
        #[trigger] extra_args[i],
    ) by {
        assert(command::words(extra_args)[i] == text::utf8(extra_args[i]));
    }
}

/// Where each argument of a server stands that logs at a level of choice. There
/// are no others.
pub proof fn law_leveled_arguments(
    vt: Option<u32>,
    seat: Option<Seq<char>>,
    authority: Seq<u8>,
    log_level: u8,
    display_fd: i32,
    extra_args: Seq<Seq<char>>,
)
    ensures
        ({
            let args = leveled_args(vt, seat, authority, log_level, display_fd, extra_args);
            let s: int = 6 + if vt is Some {
                2int
            } else {
                0int
            };
            let a: int = s + if seat is Some {
                2int
            } else {
                0int
            };
            let n = extra_args.len() as int;
            &&& args.len() == a + n + 7
            &&& args[0] == text::utf8("-background"@)
            &&& args[1] == text::utf8("none"@)
            &&& args[2] == text::utf8("-noreset"@)
            &&& args[3] == text::utf8("-keeptty"@)
            &&& args[4] == text::utf8("-nolisten"@)
            &&& args[5] == text::utf8("tcp"@)
            &&& vt matches Some(number) ==> args[6] == text::utf8(
                "vt"@ + text::digits(number as nat),
            ) && args[7] == text::utf8("-novtswitch"@)
            &&& seat matches Some(name) ==> args[s] == text::utf8("-seat"@) && args[s + 1]
                == text::utf8(name)
            &&& args[a] == text::utf8("-auth"@)
            &&& args[a + 1] == authority
            &&& args[a + 2] == text::utf8("-logfile /dev/null"@)
            &&& args[a + 3] == text::utf8("-verbose"@)
            &&& args[a + 4] == text::utf8(text::digits(log_level as nat))
            &&& args[a + 5] == text::utf8("-displayfd"@)
            &&& args[a + 6] == text::utf8(text::signed_digits(display_fd as int))
            &&& forall|i: int|
                0 <= i < n ==> args[a + 7 + i] == text::utf8(#[trigger] extra_args[i])
        }),
{
    let args = leveled_args(vt, seat, authority, log_level, display_fd, extra_args);
    let a: int = 6 + (if vt is Some {
        2int
    } else {
        0int
    }) + if seat is Some {
        2int
    } else {
        0int
    };
    assert forall|i: int| 0 <= i < extra_args.len() implies args[a + 7 + i] == text::utf8(
        #[trigger] extra_args[i],
    ) by {
        assert(command::words(extra_args)[i] == text::utf8(extra_args[i]));
    }
}

/// Extra arguments are passed verbatim: a server with extra arguments gets what it
/// gets without them and, in one run, each of them in the given order.
pub proof fn law_extra_arguments(
    vt: Option<u32>,
    seat: Option<Seq<char>>,
    authority: Seq<u8>,
    log_level: u8,
    extra_args: Seq<Seq<char>>,
    display_fd: i32,
)
    ensures
        ({
            let extra = Seq::new(extra_args.len(), |i: int| text::utf8(extra_args[i]));
            let none = plain_args(vt, seat, authority, Seq::empty(), display_fd);
            let n = none.len() - 2;
            plain_args(vt, seat, authority, extra_args, display_fd) == none.take(n) + extra
                + none.skip(n)
        }),
        ({
            let extra = Seq::new(extra_args.len(), |i: int| text::utf8(extra_args[i]));
            leveled_args(vt, seat, authority, log_level, display_fd, extra_args)
                == leveled_args(vt, seat, authority, log_level, display_fd, Seq::empty()) + extra
        }),
{
    let extra = Seq::new(extra_args.len(), |i: int| text::utf8(extra_args[i]));
    let none = plain_args(vt, seat, authority, Seq::empty(), display_fd);
    let n = none.len() - 2;
    assert(plain_args(vt, seat, authority, extra_args, display_fd) =~= none.take(n) + extra
        + none.skip(n));
    assert(leveled_args(vt, seat, authority, log_level, display_fd, extra_args) =~= leveled_args(
        vt,
        seat,
        authority,
        log_level,
        display_fd,
        Seq::empty(),
    ) + extra);
}

/// Whatever the server inherits, it finds in its environment that it may run as an
/// ordinary user, and everything else as it was.
pub proof fn law_server_environment(base: Map<Seq<char>, Seq<u8>>)
    ensures
        diff::applied_all(base, xorg_env()) == base.insert(
            "XORG_RUN_AS_USER_OK"@,
            text::utf8("1"@),
        ),
{
    reveal_with_fuel(diff::applied_all, 2);
    assert(xorg_env().drop_last() =~= Seq::<(Seq<char>, Option<Seq<u8>>)>::empty());
}

} // verus!
