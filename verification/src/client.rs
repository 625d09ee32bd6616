//! The client that the session is about.
use vstd::prelude::*;

use crate::command;
use crate::command::CommandLine;
use crate::command::CommandView;
use crate::env::container;
use crate::env::container::Env;
use crate::env::container::EnvBuf;
use crate::env::container::EnvRaw;
use crate::env::diff;
use crate::env::diff::Entry;
use crate::env::diff::EnvDiff;
use crate::env::parse::EnvError;
use crate::env::parse::EnvironmentParse;
use crate::env::parse::EnvironmentVariable;
use crate::env::variables;
use crate::env::variables::ClientAuthority;
use crate::env::variables::Seat;
use crate::env::variables::Terminal;
use crate::env::variables::WindowPath;
use crate::env::variables::XinitRC;
use crate::path;
use crate::path::EnsureExistsExt;
use crate::path::UnixPath;
use crate::text;
use crate::warn;
use crate::warn::Warning;
use crate::views;

verus! {

// ---------------------------------------------------------------------------
// A program
// ---------------------------------------------------------------------------
/// Run a client executable.
pub struct DirectMode {
    /// client executable
    pub executable: UnixPath,
}

impl DirectMode {
    /// The command of the client.
    pub fn run(self) -> (r: CommandLine)
        ensures
            r@ == command::bare(self.executable@),
    {
        CommandLine::new(self.executable)
    }
}

// ---------------------------------------------------------------------------
// A script for xinit
// ---------------------------------------------------------------------------
/// Xinit compatibility mode.
pub struct XinitCompatMode {}

/// What the file system says of the scripts that `xinit` runs.
pub struct XinitFiles {
    /// The home directory of the user, if it is known.
    pub home: Option<UnixPath>,
    /// Whether the user's script exists.
    pub user_exists: bool,
    /// Whether the script of the system exists.
    pub system_exists: bool,
}

/// Where the script of the system is.
pub const SYSTEM_XINITRC: &'static str = "/etc/X11/xinit/xinitrc";

/// The name of the user's script, in the home directory.
pub const USER_XINITRC: &'static str = ".xinitrc";

/// Where the user's script is.
pub fn user_xinitrc(home: &UnixPath) -> (r: UnixPath)
    ensures
        r@ == path::joined(home@, text::utf8(USER_XINITRC@)),
{
    home.join_text(USER_XINITRC)
}

/// The script that is run: the one that the environment names, that of the
/// user, or that of the system, whichever is the first there is. The one that
/// the environment names need not exist.
pub open spec fn chosen_script<E: EnvRaw>(env: &E, files: XinitFiles) -> Option<Seq<u8>> {
    match container::variable_in::<E, XinitRC>(env) {
        Ok(named) => Some(named),
        Err(_) => if files.home is Some && files.user_exists {
            Some(path::joined(files.home->0@, text::utf8(USER_XINITRC@)))
        } else if files.system_exists {
            Some(text::utf8(SYSTEM_XINITRC@))
        } else {
            None
        },
    }
}

/// The command that runs a script: the script itself if it may be executed, the
/// shell with the script otherwise. Without a script it is a terminal.
pub open spec fn script_command(script: Option<Seq<u8>>, mode: u32) -> CommandView {
    match script {
        None => command::with_args(
            text::utf8("xterm"@),
            command::words(seq!["-geometry"@, "+1+1"@, "-n"@, "login"@]),
        ),
        Some(script) => if mode & 0o111 != 0 {
            command::bare(script)
        } else {
            command::with_args(text::utf8("/bin/sh"@), seq![script])
        },
    }
}

/// Why there is no client: the script cannot be found.
#[derive(Clone, Copy, PartialEq, Eq, Structural, Debug)]
pub struct NoClient;

impl XinitCompatMode {
    /// The script that is run.
    pub fn script<E: Env>(&self, env: &E, files: XinitFiles) -> (r: Option<UnixPath>)
        requires
            env.well_formed(),
        ensures
            match r {
                Some(script) => chosen_script(env, files) == Some(script@),
                None => chosen_script(env, files) is None,
            },
    {
        match env.get::<XinitRC>() {
            Ok(named) => {
                return Some(named.path);
            },
            Err(_) => {},
        }
        match &files.home {
            Some(home) => match user_xinitrc(home).ensure_exists(files.user_exists) {
                Ok(script) => {
                    return Some(script);
                },
                Err(_) => {},
            },
            None => {},
        }
        match UnixPath::from_text(SYSTEM_XINITRC).ensure_exists(files.system_exists) {
            Ok(script) => Some(script),
            Err(_) => None,
        }
    }

    /// The command of the client. `mode` is what the system says of the
    /// permissions of the script.
    pub fn run(
        self,
        script: Option<UnixPath>,
        mode: Option<u32>,
        warnings: &mut Vec<Warning>,
    ) -> (r: Result<CommandLine, NoClient>)
        ensures
            match script {
                None => {
                    &&& r matches Ok(client) && client@ == script_command(None, 0)
                    &&& warn::notices(final(warnings)@) == warn::notices(
                        old(warnings)@,
                    ).push(Warning::NoXinitRc@)
                },
                Some(script) => {
                    &&& match mode {
                        Some(mode) => r matches Ok(client) && client@ == script_command(
                            Some(script@),
                            mode,
                        ),
                        None => r is Err,
                    }
                    &&& final(warnings)@ == old(warnings)@
                },
            },
    {
        let script = match script {
            Some(script) => script,
            None => {
                proof {
                    warn::lemma_notices_push(warnings@, Warning::NoXinitRc);
                }
                warnings.push(Warning::NoXinitRc);
                let mut xterm = CommandLine::new(UnixPath::from_text("xterm"));
                xterm.arg("-geometry");
                xterm.arg("+1+1");
                xterm.arg("-n");
                xterm.arg("login");
                assert(xterm@ =~= script_command(None, 0));
                return Ok(xterm);
            },
        };
        let mode = match mode {
            Some(mode) => mode,
            None => {
                return Err(NoClient);
            },
        };
        if mode & 0o111 != 0 {
            Ok(CommandLine::new(script))
        } else {
            let mut shell = CommandLine::new(UnixPath::from_text("/bin/sh"));
            let ghost script_path = script@;
            shell.arg_bytes(script.bytes);
            assert(shell@ =~= script_command(Some(script_path), mode));
            Ok(shell)
        }
    }

    /// The command of the client, which also learns where its window is if a
    /// virtual terminal is known.
    pub fn run_ext<E: Env, V: Terminal>(
        self,
        script: Option<UnixPath>,
        mode: Option<u32>,
        vt: Option<&V>,
        env: &E,
        warnings: &mut Vec<Warning>,
    ) -> (r: Result<CommandLine, NoClient>)
        requires
            env.well_formed(),
        ensures
            match script {
                None => {
                    &&& r matches Ok(client) && client@ == on_terminal(
                        script_command(None, 0),
                        vt,
                        env,
                    )
                    &&& warn::notices(final(warnings)@) == warn::notices(
                        old(warnings)@,
                    ).push(Warning::NoXinitRc@)
                },
                Some(script) => {
                    &&& match mode {
                        Some(mode) => r matches Ok(client) && client@ == on_terminal(
                            script_command(Some(script@), mode),
                            vt,
                            env,
                        ),
                        None => r is Err,
                    }
                    &&& final(warnings)@ == old(warnings)@
                },
            },
    {
        let mut client = match self.run(script, mode, warnings) {
            Ok(client) => client,
            Err(e) => {
                return Err(e);
            },
        };
        match vt {
            Some(vt) => {
                client.set(WindowPath::previous_plus_vt(env, vt));
            },
            None => {},
        }
        Ok(client)
    }
}

/// A command that learns where its window is, if a virtual terminal is known.
pub open spec fn on_terminal<E: EnvRaw, V: Terminal>(
    client: CommandView,
    vt: Option<&V>,
    env: &E,
) -> CommandView {
    match vt {
        Some(vt) => CommandView {
            env: client.env.push(
                command::setting::<WindowPath>(
                    variables::window_path(
                        variables::previous_window_path(env),
                        V::terminal_number(vt@),
                    ),
                ),
            ),
            ..client
        },
        None => client,
    }
}

// ---------------------------------------------------------------------------
// A session that is defined on the host
// ---------------------------------------------------------------------------
/// Run an xdg session. You should also consider running direct mode from a
/// higher-level session manager.
pub struct SessionMode {
    /// xdg session name
    pub name: String,
}

/// What a desktop is called, as changes to the environment.
pub struct DesktopNames {
    /// The one name, where there is only one.
    pub single: Option<Vec<Entry>>,
    /// All names.
    pub list: Vec<Entry>,
}

/// The definition of a session.
pub struct SessionEntry {
    pub executable: UnixPath,
    pub working_directory: Option<UnixPath>,
    pub desktop_names: Option<DesktopNames>,
}

/// The changes that tell a client what desktop it belongs to.
pub open spec fn desktop_changes(names: Option<DesktopNames>) -> Seq<
    (Seq<char>, Option<Seq<u8>>),
> {
    match names {
        Some(names) => (match names.single {
            Some(single) => diff::entry_views(single@),
            None => Seq::empty(),
        }) + diff::entry_views(names.list@),
        None => Seq::empty(),
    }
}

impl SessionMode {
    /// The command of the client, given the definition of the session.
    pub fn run(self, session: SessionEntry, warnings: &mut Vec<Warning>) -> (r: CommandLine)
        ensures
            r@ == (CommandView {
                env: desktop_changes(session.desktop_names),
                current_dir: views::viewed(session.working_directory),
                ..command::bare(session.executable@)
            }),
            match session.desktop_names {
                Some(_) => final(warnings)@ == old(warnings)@,
                None => warn::notices(final(warnings)@) == warn::notices(
                    old(warnings)@,
                ).push(Warning::NoDesktopNames@),
            },
    {
        let mut client = CommandLine::new(session.executable);
        client.current_dir = session.working_directory;
        match &session.desktop_names {
            Some(names) => {
                match &names.single {
                    Some(single) => {
                        client.apply(single);
                    },
                    None => {},
                }
                client.apply(&names.list);
            },
            None => {
                proof {
                    warn::lemma_notices_push(warnings@, Warning::NoDesktopNames);
                }
                warnings.push(Warning::NoDesktopNames);
            },
        }
        assert(client@.env =~= desktop_changes(session.desktop_names));
        client
    }
}

// ---------------------------------------------------------------------------
// What every client is told
// ---------------------------------------------------------------------------
/// The changes that every client gets: how to reach the server, and nothing
/// more of the terminal and the seat that the server has taken.
pub open spec fn client_changes<D: EnvironmentVariable, V: Terminal>(
    display: D::V,
    authority: Seq<u8>,
    window_path: Option<Seq<char>>,
) -> Seq<(Seq<char>, Option<Seq<u8>>)> {
    seq![command::setting::<D>(display), command::setting::<ClientAuthority>(authority)] + (
    match window_path {
        Some(path) => seq![command::setting::<WindowPath>(path)],
        None => Seq::empty(),
    }) + seq![command::unsetting::<V>(), command::unsetting::<Seat>()]
}

/// Whether a list of changes is that which every client gets, followed by the
/// variables of the session, if there are any.
pub open spec fn is_client_diff(
    entries: Seq<(Seq<char>, Option<Seq<u8>>)>,
    changes: Seq<(Seq<char>, Option<Seq<u8>>)>,
    context_env: Option<Map<Seq<char>, Seq<u8>>>,
) -> bool {
    &&& entries.len() >= changes.len()
    &&& entries.take(changes.len() as int) == changes
    &&& match context_env {
        Some(env) => container::lists(entries.skip(changes.len() as int), env),
        None => entries.len() == changes.len(),
    }
}

/// Tells a client how to reach the server and what else is known of the
/// session.
pub fn apply_session<D: EnvironmentVariable, V: Terminal>(
    client: &mut CommandLine,
    display: D,
    authority: ClientAuthority,
    window_path: Option<WindowPath>,
    context_env: Option<EnvBuf>,
)
    requires
        context_env matches Some(env) ==> env.well_formed(),
    ensures
        ({
            let told = final(client)@.env.skip(old(client)@.env.len() as int);
            &&& final(client)@ == (CommandView { env: old(client)@.env + told, ..old(client)@ })
            &&& is_client_diff(
                told,
                client_changes::<D, V>(
                    display@,
                    authority@,
                    views::viewed(window_path),
                ),
                views::viewed(context_env),
            )
        }),
{
    let ghost before = client@;
    let ghost changes = client_changes::<D, V>(
        display@,
        authority@,
        views::viewed(window_path),
    );
    client.set(display);
    client.set(authority);
    match window_path {
        Some(path) => {
            client.set(path);
        },
        None => {},
    }
    client.unset::<V>();
    client.unset::<Seat>();
    assert(client@.env =~= before.env + changes);
    match context_env {
        Some(env) => {
            let entries = env.to_env_diff();
            client.apply(&entries);
            assert(client@.env.skip(before.env.len() as int).skip(changes.len() as int)
                =~= diff::entry_views(entries@));
        },
        None => {},
    }
    let ghost told = client@.env.skip(before.env.len() as int);
    assert(told.take(changes.len() as int) =~= changes);
    assert(client@.env =~= before.env + told);
}

// ---------------------------------------------------------------------------
// Laws
// ---------------------------------------------------------------------------
/// Whatever was set for a client before, and whatever it inherits: it finds the
/// variables of the session, it finds the display and the authority of the
/// server unless the session has others, and it finds no terminal and no seat
/// unless the session has them.
pub proof fn law_client_environment<D: EnvironmentVariable, V: Terminal>(
    base: Map<Seq<char>, Seq<u8>>,
    before: Seq<(Seq<char>, Option<Seq<u8>>)>,
    told: Seq<(Seq<char>, Option<Seq<u8>>)>,
    display: D::V,
    authority: Seq<u8>,
    window_path: Option<Seq<char>>,
    context: Map<Seq<char>, Seq<u8>>,
)
    requires
        is_client_diff(
            told,
            client_changes::<D, V>(display, authority, window_path),
            Some(context),
        ),
        D::key_text() == "DISPLAY"@,
        V::key_text() == "XDG_VTNR"@,
    ensures
        ({
            let env = diff::applied_all(base, before + told);
            &&& forall|key: Seq<char>| #[trigger]
                context.contains_key(key) ==> env.contains_key(key) && env[key] == context[key]
            &&& !context.contains_key(D::key_text()) ==> env.contains_key(D::key_text())
                && env[D::key_text()] == D::serialized(display)
            &&& !context.contains_key(ClientAuthority::key_text()) ==> env.contains_key(
                ClientAuthority::key_text(),
            ) && env[ClientAuthority::key_text()] == authority
            &&& !context.contains_key(V::key_text()) ==> !env.contains_key(V::key_text())
            &&& !context.contains_key(Seat::key_text()) ==> !env.contains_key(Seat::key_text())
        }),
{
    reveal_strlit("DISPLAY");
    reveal_strlit("XAUTHORITY");
    reveal_strlit("WINDOWPATH");
    reveal_strlit("XDG_VTNR");
    reveal_strlit("XDG_SEAT");
    let changes = client_changes::<D, V>(display, authority, window_path);
    let n = changes.len() as int;
    let start = diff::applied_all(base, before);
    diff::law_applied_concat(base, before, told);
    assert(told =~= changes + told.skip(n));
    diff::law_applied_concat(start, changes, told.skip(n));
    let middle = diff::applied_all(start, changes);
    container::law_lists_override(middle, told.skip(n), context);
    assert("DISPLAY"@.len() == 7);
    assert("XAUTHORITY"@.len() == 10);
    assert("WINDOWPATH"@.len() == 10 && "WINDOWPATH"@[0] == 'W' && "XAUTHORITY"@[0] == 'X');
    assert("XDG_VTNR"@.len() == 8 && "XDG_SEAT"@.len() == 8);
    assert("XDG_VTNR"@[4] == 'V' && "XDG_SEAT"@[4] == 'S');
    diff::law_last_change_decides(start, changes, 0);
    diff::law_last_change_decides(start, changes, 1);
    diff::law_last_change_decides(start, changes, n - 2);
    diff::law_last_change_decides(start, changes, n - 1);
}

/// What every client finds that is not about the server: the path to its window
/// where a terminal is known, and whatever it had otherwise. What neither the
/// server nor the session is about stays as it was.
pub proof fn law_client_keeps<D: EnvironmentVariable, V: Terminal>(
    base: Map<Seq<char>, Seq<u8>>,
    before: Seq<(Seq<char>, Option<Seq<u8>>)>,
    told: Seq<(Seq<char>, Option<Seq<u8>>)>,
    display: D::V,
    authority: Seq<u8>,
    window_path: Option<Seq<char>>,
    context: Map<Seq<char>, Seq<u8>>,
    key: Seq<char>,
)
    requires
        is_client_diff(
            told,
            client_changes::<D, V>(display, authority, window_path),
            Some(context),
        ),
        D::key_text() == "DISPLAY"@,
        V::key_text() == "XDG_VTNR"@,
    ensures
        ({
            let start = diff::applied_all(base, before);
            let env = diff::applied_all(base, before + told);
            &&& window_path is Some && !context.contains_key("WINDOWPATH"@) ==> env.contains_key(
                "WINDOWPATH"@,
            ) && env["WINDOWPATH"@] == text::utf8(window_path->0)
            &&& !context.contains_key(key) && key != "DISPLAY"@ && key != "XAUTHORITY"@ && key
                != "XDG_VTNR"@ && key != "XDG_SEAT"@ && (key != "WINDOWPATH"@ || window_path is None)
                ==> env.contains_key(key) == start.contains_key(key) && (start.contains_key(key)
                ==> env[key] == start[key])
        }),
{
    let changes = client_changes::<D, V>(display, authority, window_path);
    let n = changes.len() as int;
    let start = diff::applied_all(base, before);
    diff::law_applied_concat(base, before, told);
    assert(told =~= changes + told.skip(n));
    diff::law_applied_concat(start, changes, told.skip(n));
    let middle = diff::applied_all(start, changes);
    container::law_lists_override(middle, told.skip(n), context);
    if window_path is Some {
        lemma_keys_differ();
        assert(changes[2].0 == "WINDOWPATH"@);
        diff::law_last_change_decides(start, changes, 2);
    }
    if key != "DISPLAY"@ && key != "XAUTHORITY"@ && key != "XDG_VTNR"@ && key != "XDG_SEAT"@ && (
    key != "WINDOWPATH"@ || window_path is None) {
        diff::law_applied_frame(start, changes, key);
    }
}

proof fn lemma_keys_differ()
    ensures
        "WINDOWPATH"@ != "XDG_VTNR"@,
        "WINDOWPATH"@ != "XDG_SEAT"@,
{
    reveal_strlit("WINDOWPATH");
    reveal_strlit("XDG_VTNR");
    reveal_strlit("XDG_SEAT");
    assert("WINDOWPATH"@.len() == 10);
    assert("XDG_VTNR"@.len() == 8 && "XDG_SEAT"@.len() == 8);
}

/// Without a session of its own, a client is told the same as with one that has no
/// variables.
pub proof fn law_client_without_session<D: EnvironmentVariable, V: Terminal>(
    told: Seq<(Seq<char>, Option<Seq<u8>>)>,
    display: D::V,
    authority: Seq<u8>,
    window_path: Option<Seq<char>>,
)
    ensures
        is_client_diff(told, client_changes::<D, V>(display, authority, window_path), None)
            == is_client_diff(
            told,
            client_changes::<D, V>(display, authority, window_path),
            Some(Map::empty()),
        ),
{
    let changes = client_changes::<D, V>(display, authority, window_path);
    let n = changes.len() as int;
    let none = Map::<Seq<char>, Seq<u8>>::empty();
    if told.len() >= n && container::lists(told.skip(n), none) && told.len() > n {
        assert(none.contains_key(told.skip(n)[0].0));
    }
}

/// The script that the environment names is run, whether or not it is there. Where
/// the environment names none, that of the user is run if it is there, whether or
/// not the system has one. The system's is run where the user has none. There is
/// no script only where none of the three is there.
pub proof fn law_script<E: EnvRaw>(env: &E, files: XinitFiles)
    ensures
        ({
            let named = env.lookup("XINITRC"@);
            let user = files.home is Some && files.user_exists;
            &&& named matches Some(path) ==> chosen_script(env, files) == Some(path)
            &&& named is None && user ==> (chosen_script(env, files) matches Some(path)
                && path::file_name_of(path) == Some(
                seq![0x2eu8, 0x78u8, 0x69u8, 0x6eu8, 0x69u8, 0x74u8, 0x72u8, 0x63u8],
            ) && files.home->0@.is_prefix_of(path) && path.len() <= files.home->0@.len() + 9)
            &&& named is None && !user && files.system_exists ==> chosen_script(env, files)
                == Some(text::utf8("/etc/X11/xinit/xinitrc"@))
            &&& chosen_script(env, files) is None <==> named is None && !user
                && !files.system_exists
        }),
{
    if env.lookup("XINITRC"@) is None && files.home is Some && files.user_exists {
        let home = files.home->0@;
        reveal_strlit(".xinitrc");
        text::lemma_ascii_bytes(".xinitrc"@);
        let name = text::utf8(".xinitrc"@);
        assert(name =~= seq![0x2eu8, 0x78u8, 0x69u8, 0x6eu8, 0x69u8, 0x74u8, 0x72u8, 0x63u8]);
        path::law_join_file_name(home, name);
        path::law_join_relative(home, name);
        let whole = path::joined(home, name);
        assert(whole.subrange(0, home.len() as int) =~= home);
    }
}

/// What other scripts there are does not matter to one that is chosen before them.
pub proof fn law_script_order<E: EnvRaw>(env: &E, files: XinitFiles, others: XinitFiles)
    requires
        env.lookup("XINITRC"@) is Some || (files.home is Some && files.user_exists && others.home
            == files.home && others.user_exists),
    ensures
        chosen_script(env, files) == chosen_script(env, others),
{
}

/// A script that its owner, its group or anyone may execute is executed; any other
/// is handed to the shell as its only argument; without one there is a terminal.
/// None of them comes with changes to the environment or a directory of its own.
pub proof fn law_script_command(script: Seq<u8>, mode: u32)
    ensures
        ({
            let run = script_command(Some(script), mode);
            let executable = (mode / 64) % 2 == 1 || (mode / 8) % 2 == 1 || mode % 2 == 1;
            &&& executable ==> run.program == script && run.args.len() == 0
            &&& !executable ==> run.program == text::utf8("/bin/sh"@) && run.args == seq![script]
            &&& run.env.len() == 0 && run.current_dir is None && !run.silent && !run.cleanup
        }),
        ({
            let run = script_command(None, mode);
            &&& run.program == text::utf8("xterm"@)
            &&& run.args.len() == 4
            &&& run.args[0] == text::utf8("-geometry"@)
            &&& run.args[1] == text::utf8("+1+1"@)
            &&& run.args[2] == text::utf8("-n"@)
            &&& run.args[3] == text::utf8("login"@)
            &&& run.env.len() == 0 && run.current_dir is None && !run.silent && !run.cleanup
        }),
{
    assert((mode & 0o111 != 0) == ((mode / 64) % 2 == 1 || (mode / 8) % 2 == 1 || mode % 2 == 1))
        by (bit_vector);
}

/// A client that is run on a terminal learns the path to its window and nothing
/// else; without a terminal it is run as it is.
pub proof fn law_on_terminal<E: EnvRaw, V: Terminal>(
    client: CommandView,
    vt: Option<&V>,
    env: &E,
    base: Map<Seq<char>, Seq<u8>>,
)
    ensures
        ({
            let run = on_terminal(client, vt, env);
            let plain = diff::applied_all(base, client.env);
            &&& run.program == client.program
            &&& run.args == client.args
            &&& run.current_dir == client.current_dir
            &&& run.silent == client.silent
            &&& run.cleanup == client.cleanup
            &&& match vt {
                Some(vt) => diff::applied_all(base, run.env) == plain.insert(
                    "WINDOWPATH"@,
                    text::utf8(
                        variables::window_path(
                            variables::previous_window_path(env),
                            V::terminal_number(vt@),
                        ),
                    ),
                ),
                None => diff::applied_all(base, run.env) == plain,
            }
        }),
{
    let run = on_terminal(client, vt, env);
    if vt is Some {
        assert(run.env.drop_last() =~= client.env);
    }
}

/// Where a session has desktop names, all of them are set for the client, whether
/// or not there is a single one: whatever the client inherits, the last change that
/// the list makes to a key is what the key comes to.
pub proof fn law_desktop_names(base: Map<Seq<char>, Seq<u8>>, names: DesktopNames, at: int)
    requires
        0 <= at < names.list@.len(),
        forall|i: int|
            at < i < names.list@.len() ==> (#[trigger] names.list@[i])@.0 != names.list@[at]@.0,
    ensures
        ({
            let env = diff::applied_all(base, desktop_changes(Some(names)));
            let (key, value) = names.list@[at]@;
            match value {
                Some(value) => env.contains_key(key) && env[key] == value,
                None => !env.contains_key(key),
            }
        }),
{
    let all = desktop_changes(Some(names));
    let list = diff::entry_views(names.list@);
    let n = all.len() - list.len();
    assert(all.skip(n) =~= list);
    assert forall|i: int| n + at < i < all.len() implies (#[trigger] all[i]).0 != all[n + at].0 by {
        assert(all[i] == names.list@[i - n]@);
    }
    diff::law_last_change_decides(base, all, n + at);
}

/// A single desktop name is set for the client too, where the list says nothing of
/// the same key.
pub proof fn law_single_desktop_name(base: Map<Seq<char>, Seq<u8>>, names: DesktopNames, at: int)
    requires
        names.single is Some,
        0 <= at < names.single->0@.len(),
        forall|i: int|
            at < i < names.single->0@.len() ==> (#[trigger] names.single->0@[i])@.0
                != names.single->0@[at]@.0,
        forall|i: int|
            0 <= i < names.list@.len() ==> (#[trigger] names.list@[i])@.0
                != names.single->0@[at]@.0,
    ensures
        ({
            let env = diff::applied_all(base, desktop_changes(Some(names)));
            let (key, value) = names.single->0@[at]@;
            match value {
                Some(value) => env.contains_key(key) && env[key] == value,
                None => !env.contains_key(key),
            }
        }),
{
    let all = desktop_changes(Some(names));
    let single = diff::entry_views(names.single->0@);
    let n = single.len() as int;
    assert forall|i: int| at < i < all.len() implies (#[trigger] all[i]).0 != all[at].0 by {
        if i < n {
            assert(all[i] == names.single->0@[i]@);
        } else {
            assert(all[i] == names.list@[i - n]@);
        }
    }
    diff::law_last_change_decides(base, all, at);
}

/// A session's desktop names change nothing but the keys that they are about, and
/// without names nothing is changed.
pub proof fn law_desktop_names_alone(
    base: Map<Seq<char>, Seq<u8>>,
    names: Option<DesktopNames>,
    key: Seq<char>,
)
    requires
        names matches Some(names) ==> {
            &&& forall|i: int|
                0 <= i < names.list@.len() ==> (#[trigger] names.list@[i])@.0 != key
            &&& names.single matches Some(single) ==> forall|i: int|
                0 <= i < single@.len() ==> (#[trigger] single@[i])@.0 != key
        },
    ensures
        ({
            let env = diff::applied_all(base, desktop_changes(names));
            env.contains_key(key) == base.contains_key(key) && (base.contains_key(key)
                ==> env[key] == base[key])
        }),
{
    let all = desktop_changes(names);
    assert forall|i: int| 0 <= i < all.len() implies (#[trigger] all[i]).0 != key by {
        let names = names->0;
        match names.single {
            Some(single) => {
                let n = single@.len() as int;
                if i < n {
                    assert(all[i] == single@[i]@);
                } else {
                    assert(all[i] == names.list@[i - n]@);
                }
            },
            None => {
                assert(all[i] == names.list@[i]@);
            },
        }
    }
    diff::law_applied_frame(base, all, key);
}

} // verus!
