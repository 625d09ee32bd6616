//! Sessions whose files are kept in the runtime directory.
use vstd::prelude::*;

use crate::command::CommandLine;
use crate::command::CommandView;
use crate::context::SessionContext;
use crate::display;
use crate::display::DisplayError;
use crate::env::variables::Seat;
use crate::fd::remap;
use crate::fd::remap::FdMapping;
use crate::fd::remap::FdSource;
use crate::fd::remap::SimpleFdContext;
use crate::launcher::env_definitions::Display;
use crate::launcher::env_definitions::VtNumber;
use crate::path;
use crate::path::UnixPath;
use crate::runtime_dir::RuntimeDir;
use crate::runtime_dir::RuntimeDirManager;
use crate::server;
use crate::text;
use crate::views;

pub mod authority;
pub mod env_definitions;

verus! {

/// The line in which the server says what display it has taken. It is empty if
/// the server ended before.
pub struct DisplayReceiver {
    pub line: Vec<u8>,
}

impl DisplayReceiver {
    /// The display.
    pub fn blocking_wait(self) -> (r: Result<Display, DisplayError>)
        ensures
            match r {
                Ok(display) => display::received(self.line@, u8::MAX as nat) == Ok::<
                    nat,
                    DisplayError,
                >(display@ as nat),
                Err(e) => display::received(self.line@, u8::MAX as nat) == Err::<
                    nat,
                    DisplayError,
                >(e),
            },
    {
        match display::receive(self.line, u8::MAX as u32) {
            Ok(n) => Ok(Display::from_number(n as u8)),
            Err(e) => Err(e),
        }
    }
}

/// The directory of a session, within the runtime directory.
pub fn session_dir(manager: &RuntimeDirManager, id: &str) -> (r: RuntimeDir)
    ensures
        r@ == path::joined(manager@, text::utf8("xshim-"@ + id@)),
{
    let name = text::concat("xshim-", id);
    manager.create(name.as_str())
}

/// Sessions of different names have different directories.
pub proof fn law_directories_differ(dir: Seq<u8>, a: Seq<char>, b: Seq<char>)
    requires
        a != b,
    ensures
        path::joined(dir, text::utf8("xshim-"@ + a)) != path::joined(
            dir,
            text::utf8("xshim-"@ + b),
        ),
{
    let x = "xshim-"@ + a;
    let y = "xshim-"@ + b;
    if path::joined(dir, text::utf8(x)) == path::joined(dir, text::utf8(y)) {
        reveal_strlit("xshim-");
        lemma_relative(a);
        lemma_relative(b);
        path::law_join_injective(dir, text::utf8(x), text::utf8(y));
        text::law_utf8_round_trip(x);
        text::law_utf8_round_trip(y);
        assert(x.skip(6) =~= a);
        assert(y.skip(6) =~= b);
    }
}

proof fn lemma_relative(id: Seq<char>)
    ensures
        text::utf8("xshim-"@ + id)[0] != path::slash(),
{
    reveal_strlit("xshim-");
    text::law_utf8_concat("xshim-"@, id);
    vstd::utf8::is_ascii_chars_encode_utf8("xshim-"@);
    assert(text::utf8("xshim-"@)[0] == "xshim-"@[0] as u8);
}

/// What the server is started with.
pub open spec fn server_view(
    path: Seq<u8>,
    extra_args: Seq<Seq<char>>,
    authority: Seq<u8>,
    seat: Option<Seq<char>>,
    vt: Option<u8>,
) -> CommandView {
    CommandView {
        program: path,
        args: server::plain_args(
            match vt {
                Some(n) => Some(n as u32),
                None => None,
            },
            seat,
            authority,
            extra_args,
            3,
        ),
        env: server::xorg_env(),
        current_dir: None,
        silent: false,
        cleanup: true,
    }
}

/// The command of a server for a session, and the descriptor that it is given:
/// the end of a pipe that it writes its display to.
pub fn spawn_server(
    path: UnixPath,
    extra_args: &Vec<String>,
    authority: UnixPath,
    context: SessionContext<VtNumber>,
    display_fd: i32,
) -> (r: (CommandLine, SimpleFdContext))
    ensures
        r.0@ == server_view(
            path@,
            text::texts(extra_args@),
            authority@,
            views::viewed(context.seat),
            views::viewed(context.vt_number),
        ),
        r.1.mappings@ == seq![(FdMapping { parent_fd: display_fd, child_fd: 3 })],
        r.1.well_formed(),
        r.1.free_fd_source.remaining() == remap::numbers(4, 6),
{
    let mut fd_context = SimpleFdContext::new(1);
    assert(fd_context.free_fd_source.remaining()[0] == 3);
    let display = fd_context.pass(display_fd).unwrap();
    assert(fd_context.mappings@ =~= seq![(FdMapping { parent_fd: display_fd, child_fd: 3 })]);
    assert(fd_context.free_fd_source.remaining() =~= remap::numbers(4, 6));
    let vt: Option<u32> = match context.vt_number {
        Some(vt) => Some(vt.number as u32),
        None => None,
    };
    let seat = match context.seat {
        Some(seat) => Some(seat.name),
        None => None,
    };
    let command = server::plain_command(
        path,
        vt,
        seat,
        authority,
        extra_args,
        display.as_raw_fd(),
    );
    (command, fd_context)
}

/// What the server of a session is started with: the seat and the terminal of the
/// session and no others, its authority, all extra arguments, and the number of the
/// descriptor that it is given.
pub proof fn law_server_command(
    path: Seq<u8>,
    extra_args: Seq<Seq<char>>,
    authority: Seq<u8>,
    seat: Option<Seq<char>>,
    vt: Option<u8>,
)
    ensures
        ({
            let run = server_view(path, extra_args, authority, seat, vt);
            let s: int = if seat is Some {
                2
            } else {
                0
            };
            let v: int = s + if vt is Some {
                2int
            } else {
                0int
            };
            let n = extra_args.len() as int;
            &&& run.program == path
            &&& run.args.len() == v + n + 14
            &&& seat matches Some(name) ==> run.args[0] == text::utf8("-seat"@) && run.args[1]
                == text::utf8(name)
            &&& vt matches Some(number) ==> run.args[s] == text::utf8(
                "vt"@ + text::digits(number as nat),
            ) && run.args[s + 1] == text::utf8("-novtswitch"@)
            &&& run.args[v] == text::utf8("-auth"@)
            &&& run.args[v + 1] == authority
            &&& forall|i: int|
                0 <= i < n ==> run.args[v + 12 + i] == text::utf8(#[trigger] extra_args[i])
            &&& run.args[v + 12 + n] == text::utf8("-displayfd"@)
            &&& run.args[v + 13 + n] == text::utf8(text::digits(3))
            &&& run.env == seq![("XORG_RUN_AS_USER_OK"@, Some(text::utf8("1"@)))]
            &&& run.current_dir is None
            &&& !run.silent
            &&& run.cleanup
        }),
{
    server::law_plain_arguments(
        match vt {
            Some(n) => Some(n as u32),
            None => None,
        },
        seat,
        authority,
        extra_args,
        3,
    );
}

/// The directory of a session lies in the runtime directory, and its name is made of
/// that of the session.
pub proof fn law_session_directory(dir: Seq<u8>, id: Seq<char>)
    ensures
        ({
            let made = path::joined(dir, text::utf8("xshim-"@ + id));
            let name = text::utf8("xshim-"@ + id);
            &&& dir.is_prefix_of(made)
            &&& made.skip(made.len() - name.len()) == name
            &&& made.len() <= dir.len() + 1 + name.len()
        }),
{
    lemma_relative(id);
    let name = text::utf8("xshim-"@ + id);
    path::law_join_relative(dir, name);
    assert(path::joined(dir, name).subrange(0, dir.len() as int) =~= dir);
}

} // verus!
