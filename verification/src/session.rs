//! A server that is prepared first and waited for later.
use vstd::prelude::*;

use crate::command::CommandLine;
use crate::command::CommandView;
use crate::connect;
use crate::connect::Connecting;
use crate::display;
use crate::display::DisplayError;
use crate::display::DisplayReceiver;
use crate::env::container;
use crate::env::container::Env;
use crate::env::container::EnvBuf;
use crate::env::container::EnvRaw;
use crate::env::parse::EnvironmentParse;
use crate::env::parse::EnvironmentVariable;
use crate::env::variables::ClientAuthority;
use crate::env::variables::Display;
use crate::env::variables::Seat;
use crate::env::variables::VtNumber;
use crate::fd;
use crate::fd::keep::FdContext;
use crate::path::UnixPath;
use crate::server;
use crate::text;
use crate::xauthority::cookie::Cookie;
use crate::xauthority::encoding;
use crate::xauthority::encoding::Hostname;
use crate::xauthority::file;
use crate::xauthority::file::AuthorityFile;
use crate::xauthority::setup;
use crate::xauthority::setup::AuthorityError;
use crate::xauthority::setup::ClientAuthoritySettings;
use crate::views;

verus! {

/// Why there is no session.
#[derive(Clone, Copy, PartialEq, Eq, Structural, Debug)]
pub enum SessionError {
    /// Authority cannot be set up.
    Authority(AuthorityError),
    /// The server has no display.
    Display(DisplayError),
}

// ---------------------------------------------------------------------------
// Settings
// ---------------------------------------------------------------------------
/// How the server is to be started.
pub struct Settings {
    /// Path to Xorg binary
    pub xorg_path: UnixPath,
    /// Override current environment
    pub env: Option<EnvBuf>,
    /// Override current hostname
    pub hostname: Option<Hostname>,
    /// VT number to use. If it is not given, the environment is asked; if that
    /// does not know one either, Xorg picks an appropriate one.
    pub vt: Option<VtNumber>,
    /// Login seat to use. If it is not given, the environment is asked; if that
    /// does not know one either, Xorg operates without a seat.
    pub seat: Option<Seat>,
    /// Xorg log (verbosity) level
    pub log_level: u8,
    /// Extra arguments to pass to Xorg
    pub extra_args: Option<Vec<String>>,
    /// Where to place the Xauthority file
    pub xauthority_path: Option<UnixPath>,
    /// Do not use locks when dealing with Xauthority. Marginally improves
    /// performance.
    ///
    /// Only to be set if no other process will interact with Xauthority while
    /// in setup, which without an `xauthority_path` can hardly be known.
    pub unsafe_skip_xauth_locks: bool,
}

impl Default for Settings {
    fn default() -> (r: Self)
        ensures
            r.xorg_path@ == text::utf8(server::DEFAULT_XORG_PATH@),
            r.env is None,
            r.hostname is None,
            r.vt is None,
            r.seat is None,
            r.log_level == 3,
            r.extra_args is None,
            r.xauthority_path is None,
            !r.unsafe_skip_xauth_locks,
    {
        Settings {
            xorg_path: UnixPath::from_text(server::DEFAULT_XORG_PATH),
            env: None,
            hostname: None,
            vt: None,
            seat: None,
            log_level: 3,
            extra_args: None,
            xauthority_path: None,
            unsafe_skip_xauth_locks: false,
        }
    }
}

/// The environment to go by: the given one, or the current one.
pub open spec fn chosen_env(given: Option<EnvBuf>, current: EnvBuf) -> EnvBuf {
    match given {
        Some(env) => env,
        None => current,
    }
}

/// Whether a given environment is in order.
pub open spec fn in_order(given: Option<EnvBuf>) -> bool {
    match given {
        Some(env) => env.well_formed(),
        None => true,
    }
}

/// The environment to go by: the given one, or the current one.
pub fn choose_env<'a>(given: &'a Option<EnvBuf>, current: &'a EnvBuf) -> (r: &'a EnvBuf)
    ensures
        *r == chosen_env(*given, *current),
{
    match given {
        Some(env) => env,
        None => current,
    }
}

/// A variable to go by: the given one, or that of the environment.
pub open spec fn chosen<E: EnvRaw, T: EnvironmentVariable>(given: Option<T>, env: &E) -> Option<
    T::V,
> {
    match given {
        Some(value) => Some(value@),
        None => match container::variable_in::<E, T>(env) {
            Ok(value) => Some(value),
            Err(_) => None,
        },
    }
}

/// A variable to go by: the given one, or that of the environment.
pub fn choose_variable<E: Env, T: EnvironmentVariable>(given: Option<T>, env: &E) -> (r: Option<T>)
    requires
        env.well_formed(),
    ensures
        match r {
            Some(value) => chosen(given, env) == Some(value@),
            None => chosen(given, env) is None,
        },
{
    match given {
        Some(value) => Some(value),
        None => match env.get::<T>() {
            Ok(value) => Some(value),
            Err(_) => None,
        },
    }
}

/// Where the client's file is to be: at the given path, or where the
/// environment wants it. Either way the environment has to want it somewhere.
pub open spec fn chosen_path<E: EnvRaw>(
    given: Option<UnixPath>,
    env: &E,
    runtime_dir_mode: Option<u32>,
) -> Option<Seq<u8>> {
    match setup::xauthority_path(env, runtime_dir_mode) {
        Some(wanted) => match given {
            Some(path) => Some(path@),
            None => Some(wanted),
        },
        None => None,
    }
}

/// Where the client's file is to be.
pub fn choose_path<E: Env>(
    given: Option<UnixPath>,
    env: &E,
    runtime_dir_mode: Option<u32>,
) -> (r: Result<UnixPath, AuthorityError>)
    requires
        env.well_formed(),
    ensures
        match r {
            Ok(path) => chosen_path(given, env, runtime_dir_mode) == Some(path@),
            Err(e) => chosen_path(given, env, runtime_dir_mode) is None && e
                == AuthorityError::NoPath,
        },
{
    match setup::get_xauthority_path(env, runtime_dir_mode) {
        Ok(wanted) => match given {
            Some(path) => Ok(path),
            None => Ok(wanted),
        },
        Err(e) => Err(e),
    }
}

// ---------------------------------------------------------------------------
// Preparing the server
// ---------------------------------------------------------------------------
/// The descriptors of the parent that the server is to use.
#[derive(Clone, Copy)]
pub struct ServerFds {
    /// A private file that the server's authority is written to.
    pub authority: i32,
    /// The end of a pipe that the server writes its display to.
    pub display: i32,
}

/// What the server is started with.
pub open spec fn server_view(
    path: Seq<u8>,
    vt: Option<u32>,
    seat: Option<Seq<char>>,
    fds: ServerFds,
    log_level: u8,
    extra_args: Option<Vec<String>>,
) -> CommandView {
    CommandView {
        program: path,
        args: server::leveled_args(
            vt,
            seat,
            fd::fd_path(fds.authority),
            log_level,
            fds.display,
            match extra_args {
                Some(args) => text::texts(args@),
                None => Seq::empty(),
            },
        ),
        env: server::xorg_env(),
        current_dir: None,
        silent: true,
        cleanup: true,
    }
}

/// Prepares the command of a server, and the descriptors that it inherits.
pub fn prepare_xorg(
    path: UnixPath,
    vt: Option<VtNumber>,
    seat: Option<Seat>,
    fds: ServerFds,
    log_level: u8,
    extra_args: Option<Vec<String>>,
) -> (r: (CommandLine, FdContext))
    ensures
        r.0@ == server_view(
            path@,
            views::viewed(vt),
            views::viewed(seat),
            fds,
            log_level,
            extra_args,
        ),
        r.1.parent_fds@ == seq![fds.authority, fds.display],
        !r.1.is_current,
{
    let mut fd_ctx = FdContext::new();
    let authority = fd_ctx.pass(fds.authority);
    let display = fd_ctx.pass(fds.display);
    assert(fd_ctx.parent_fds@ =~= seq![fds.authority, fds.display]);
    let vt: Option<u32> = match vt {
        Some(vt) => Some(vt.number),
        None => None,
    };
    let seat = match seat {
        Some(seat) => Some(seat.name),
        None => None,
    };
    let extra = match extra_args {
        Some(args) => args,
        None => Vec::new(),
    };
    proof {
        if extra_args is None {
            assert(text::texts(extra@) =~= Seq::empty());
        }
    }
    let command = server::leveled_command(
        path,
        vt,
        seat,
        authority.path(),
        log_level,
        display.as_raw_fd(),
        &extra,
    );
    (command, fd_ctx)
}

/// A server that is ready to be started.
pub struct XShim {
    pub xorg_command: CommandLine,
    /// The descriptors that the server inherits.
    pub fd_context: FdContext,
    /// What has to be in the server's private file when it starts.
    pub server_authority: Vec<u8>,
    pub pending_session: PendingSession,
}

/// A session whose display is not known yet.
pub struct PendingSession {
    pub cookie: Cookie,
    pub client_authority_settings: ClientAuthoritySettings,
}

/// Why a server cannot be prepared.
pub open spec fn preparation_failure(path: Option<Seq<u8>>, has_cookie: bool) -> Option<
    SessionError,
> {
    if path is None {
        Some(SessionError::Authority(AuthorityError::NoPath))
    } else if !has_cookie {
        Some(SessionError::Authority(AuthorityError::Random))
    } else {
        None
    }
}

/// Where the client's file of a server is to be.
pub open spec fn wanted_path(
    settings: Settings,
    current: &EnvBuf,
    runtime_dir_mode: Option<u32>,
) -> Option<Seq<u8>> {
    chosen_path(
        settings.xauthority_path,
        &chosen_env(settings.env, *current),
        runtime_dir_mode,
    )
}

/// Whether a prepared server is the one that was asked for.
pub open spec fn is_prepared(
    shim: XShim,
    settings: Settings,
    current: &EnvBuf,
    runtime_dir_mode: Option<u32>,
    fds: ServerFds,
) -> bool {
    let env = &chosen_env(settings.env, *current);
    let pending = shim.pending_session;
    let client = pending.client_authority_settings;
    &&& shim.xorg_command@ == server_view(
        settings.xorg_path@,
        chosen(settings.vt, env),
        chosen(settings.seat, env),
        fds,
        settings.log_level,
        settings.extra_args,
    )
    &&& shim.fd_context.parent_fds@ == seq![fds.authority, fds.display]
    &&& !shim.fd_context.is_current
    &&& shim.server_authority@ == encoding::encoded(setup::wildcard_entry(pending.cookie@, 0))
    &&& wanted_path(settings, current, runtime_dir_mode) == Some(client.xauthority_path@)
    &&& settings.hostname matches Some(hostname) ==> client.hostname@ == hostname@
    &&& client.skip_locks == settings.unsafe_skip_xauth_locks
}

/// Prepares a server, given the name of this host and a cookie, if one could
/// be made.
pub fn xorg_new_with(
    settings: Settings,
    current: &EnvBuf,
    runtime_dir_mode: Option<u32>,
    fds: ServerFds,
    current_hostname: Hostname,
    cookie: Option<Cookie>,
) -> (r: Result<XShim, SessionError>)
    requires
        current.well_formed(),
        in_order(settings.env),
    ensures
        match r {
            Ok(shim) => {
                &&& preparation_failure(
                    wanted_path(settings, current, runtime_dir_mode),
                    cookie is Some,
                ) is None
                &&& is_prepared(shim, settings, current, runtime_dir_mode, fds)
                &&& shim.pending_session.cookie@ == cookie->0@
                &&& settings.hostname is None
                    ==> shim.pending_session.client_authority_settings.hostname@
                    == current_hostname@
            },
            Err(e) => preparation_failure(
                wanted_path(settings, current, runtime_dir_mode),
                cookie is Some,
            ) == Some(e),
        },
{
    let given_env = settings.env;
    let env = choose_env(&given_env, current);
    let vt = choose_variable(settings.vt, env);
    let seat = choose_variable(settings.seat, env);
    let hostname = match settings.hostname {
        Some(hostname) => hostname,
        None => current_hostname,
    };
    let xauthority_path = match choose_path(settings.xauthority_path, env, runtime_dir_mode) {
        Ok(path) => path,
        Err(e) => {
            return Err(SessionError::Authority(e));
        },
    };
    let (server_authority, cookie) = match setup::setup_server_with(cookie) {
        Ok(server) => server,
        Err(e) => {
            return Err(SessionError::Authority(e));
        },
    };
    let client_authority_settings = ClientAuthoritySettings {
        xauthority_path,
        hostname,
        skip_locks: settings.unsafe_skip_xauth_locks,
    };
    let (xorg_command, fd_context) = prepare_xorg(
        settings.xorg_path,
        vt,
        seat,
        fds,
        settings.log_level,
        settings.extra_args,
    );
    Ok(
        XShim {
            xorg_command,
            fd_context,
            server_authority,
            pending_session: PendingSession { cookie, client_authority_settings },
        },
    )
}

/// Whether a server was prepared with a cookie that was drawn for it, and with
/// the name of this host where no other was given; the cookie is none where the
/// system gave none.
pub open spec fn is_prepared_with(
    r: Result<XShim, SessionError>,
    settings: Settings,
    current: &EnvBuf,
    runtime_dir_mode: Option<u32>,
    fds: ServerFds,
    drawn: Option<Seq<u8>>,
) -> bool {
    match r {
        Ok(shim) => {
            &&& preparation_failure(
                wanted_path(settings, current, runtime_dir_mode),
                drawn is Some,
            ) is None
            &&& is_prepared(shim, settings, current, runtime_dir_mode, fds)
            &&& drawn == Some(shim.pending_session.cookie@)
            &&& settings.hostname is None ==> crate::system::is_hostname(
                shim.pending_session.client_authority_settings.hostname@,
            )
        },
        Err(e) => preparation_failure(
            wanted_path(settings, current, runtime_dir_mode),
            drawn is Some,
        ) == Some(e),
    }
}

/// Prepares a server. Think of it as a better way of naming the command.
///
/// `current` is the environment of the process, and `runtime_dir_mode` what the
/// system says of the permissions of the runtime directory in the environment of
/// [`choose_env`]. What comes of it is resolved by writing the server's
/// authority, starting the command, and waiting for the display.
pub fn xorg_new(
    settings: Settings,
    current: &EnvBuf,
    runtime_dir_mode: Option<u32>,
    fds: ServerFds,
) -> (r: Result<XShim, SessionError>)
    requires
        current.well_formed(),
        in_order(settings.env),
    ensures
        exists|drawn: Option<Seq<u8>>|
            setup::is_drawn(drawn) && #[trigger] is_prepared_with(
                r,
                settings,
                current,
                runtime_dir_mode,
                fds,
                drawn,
            ),
{
    let hostname = setup::get_hostname();
    let cookie = setup::make_cookie();
    let ghost drawn = views::viewed(cookie);
    let r = xorg_new_with(settings, current, runtime_dir_mode, fds, hostname, cookie);
    assert(is_prepared_with(r, settings, current, runtime_dir_mode, fds, drawn));
    r
}

/// Prepares a server the way it is done without any settings.
pub fn xorg_new_default(current: &EnvBuf, runtime_dir_mode: Option<u32>, fds: ServerFds) -> (r:
    Result<XShim, SessionError>)
    requires
        current.well_formed(),
    ensures
        exists|settings: Settings, drawn: Option<Seq<u8>>|
            is_default(settings) && setup::is_drawn(drawn) && #[trigger] is_prepared_with(
                r,
                settings,
                current,
                runtime_dir_mode,
                fds,
                drawn,
            ),
{
    let settings: Settings = Default::default();
    assert(is_default(settings));
    xorg_new(settings, current, runtime_dir_mode, fds)
}

/// Whether nothing is set.
pub open spec fn is_default(settings: Settings) -> bool {
    &&& settings.xorg_path@ == text::utf8(server::DEFAULT_XORG_PATH@)
    &&& settings.env is None
    &&& settings.hostname is None
    &&& settings.vt is None
    &&& settings.seat is None
    &&& settings.log_level == 3
    &&& settings.extra_args is None
    &&& settings.xauthority_path is None
    &&& !settings.unsafe_skip_xauth_locks
}

// ---------------------------------------------------------------------------
// Waiting for the server
// ---------------------------------------------------------------------------
/// A session whose server runs.
pub struct XSession {
    pub display: Display,
    pub client_authority: ClientAuthority,
    pub cookie: Cookie,
}

/// Why a pending session does not become a session.
pub open spec fn wait_failure(pending: PendingSession, line: Seq<u8>) -> Option<SessionError> {
    match display::received(line, u16::MAX as nat) {
        Err(e) => Some(SessionError::Display(e)),
        Ok(_) => {
            let client = pending.client_authority_settings;
            match setup::client_failure(
                client.xauthority_path@,
                client.hostname@,
                client.skip_locks,
            ) {
                Some(e) => Some(SessionError::Authority(e)),
                None => None,
            }
        },
    }
}

impl PendingSession {
    /// The session, once the server has said what display it has taken, and the
    /// file that has to be written for its clients.
    pub fn wait_for_display(self, display_receiver: DisplayReceiver) -> (r: Result<
        (XSession, AuthorityFile),
        SessionError,
    >)
        ensures
            match r {
                Ok((session, xauth_file)) => {
                    let client = self.client_authority_settings;
                    &&& wait_failure(self, display_receiver.line@) is None
                    &&& display::received(display_receiver.line@, u16::MAX as nat) == Ok::<
                        nat,
                        DisplayError,
                    >(session.display@ as nat)
                    &&& session.client_authority@ == client.xauthority_path@
                    &&& session.cookie@ == self.cookie@
                    &&& xauth_file.path@ == client.xauthority_path@
                    &&& file::is_locked(xauth_file, !client.skip_locks)
                    &&& !xauth_file.exclusive
                    &&& xauth_file.contents@ == encoding::encoded_all(
                        setup::client_entries(self.cookie@, client.hostname@, session.display@),
                    )
                },
                Err(e) => wait_failure(self, display_receiver.line@) == Some(e),
            },
    {
        let cookie = self.cookie;
        let display = match display_receiver.blocking_wait() {
            Ok(display) => display,
            Err(e) => {
                return Err(SessionError::Display(e));
            },
        };
        match setup::setup_client(self.client_authority_settings, &cookie, &display) {
            Ok((client_authority, xauth_file)) => Ok(
                (XSession { display, client_authority, cookie }, xauth_file),
            ),
            Err(e) => Err(SessionError::Authority(e)),
        }
    }
}

impl XSession {
    /// The attempts to connect to the server.
    pub fn connect(&self) -> (r: Connecting)
        requires
            self.display@ <= connect::LAST_DISPLAY,
        ensures
            r.remaining() == connect::local_attempts(self.display@, self.cookie@),
    {
        Connecting::new(&self.display, &self.cookie)
    }

    /// What a client has to find in its environment.
    pub fn client_env(self) -> (r: (Display, ClientAuthority))
        ensures
            r.0@ == self.display@,
            r.1@ == self.client_authority@,
    {
        (self.display, self.client_authority)
    }
}

// ---------------------------------------------------------------------------
// Laws
// ---------------------------------------------------------------------------
/// The number that the server writes is the number that clients are told, and
/// under which they find their cookie.
pub proof fn law_display_reaches_clients(n: u16, cookie: Seq<u8>, hostname: Seq<u8>)
    ensures
        display::received(text::utf8(text::digits(n as nat) + seq!['\n']), u16::MAX as nat) == Ok::<
            nat,
            DisplayError,
        >(n as nat),
        Display::serialized(n) == text::utf8(text::digits(n as nat)),
        setup::client_entries(cookie, hostname, n)[0].display == text::utf8(
            text::digits(n as nat),
        ),
        setup::client_entries(cookie, hostname, n)[1].display == text::utf8(
            text::digits(n as nat),
        ),
{
    display::law_received(n as nat, u16::MAX as nat);
}

/// What a server is started with that was prepared from settings: the program, the
/// terminal and the seat of the settings, or of the environment where the settings
/// have none, the level, all extra arguments, and the descriptors, which it
/// inherits. The environment is that of the settings, or the current one.
pub proof fn law_prepared_command(
    shim: XShim,
    settings: Settings,
    current: &EnvBuf,
    runtime_dir_mode: Option<u32>,
    fds: ServerFds,
    drawn: Option<Seq<u8>>,
)
    requires
        is_prepared_with(Ok(shim), settings, current, runtime_dir_mode, fds, drawn),
    ensures
        ({
            let env = match settings.env {
                Some(env) => env,
                None => *current,
            };
            let own_vt = container::variable::<VtNumber>(env.lookup("XDG_VTNR"@));
            let own_seat = container::variable::<Seat>(env.lookup("XDG_SEAT"@));
            let has_vt = settings.vt is Some || own_vt is Ok;
            let has_seat = settings.seat is Some || own_seat is Ok;
            let s: int = if has_vt {
                8
            } else {
                6
            };
            let a: int = s + if has_seat {
                2int
            } else {
                0int
            };
            let n: int = match settings.extra_args {
                Some(args) => args@.len() as int,
                None => 0,
            };
            let run = shim.xorg_command@;
            &&& run.program == settings.xorg_path@
            &&& run.args.len() == a + n + 7
            &&& settings.vt matches Some(vt) ==> run.args[6] == text::utf8(
                "vt"@ + text::digits(vt@ as nat),
            )
            &&& settings.vt is None && own_vt is Ok ==> run.args[6] == text::utf8(
                "vt"@ + text::digits(own_vt->Ok_0 as nat),
            )
            &&& has_vt ==> run.args[7] == text::utf8("-novtswitch"@)
            &&& has_seat ==> run.args[s] == text::utf8("-seat"@)
            &&& settings.seat matches Some(seat) ==> run.args[s + 1] == text::utf8(seat@)
            &&& settings.seat is None && own_seat is Ok ==> run.args[s + 1] == text::utf8(
                own_seat->Ok_0,
            )
            &&& run.args[a] == text::utf8("-auth"@)
            &&& run.args[a + 1] == text::utf8(
                "/proc/self/fd/"@ + text::signed_digits(fds.authority as int),
            )
            &&& run.args[a + 3] == text::utf8("-verbose"@)
            &&& run.args[a + 4] == text::utf8(text::digits(settings.log_level as nat))
            &&& run.args[a + 5] == text::utf8("-displayfd"@)
            &&& run.args[a + 6] == text::utf8(text::signed_digits(fds.display as int))
            &&& settings.extra_args matches Some(args) ==> forall|i: int|
                0 <= i < n ==> run.args[a + 7 + i] == text::utf8((#[trigger] args@[i])@)
            &&& run.env == seq![("XORG_RUN_AS_USER_OK"@, Some(text::utf8("1"@)))]
            &&& run.current_dir is None
            &&& run.silent
            &&& run.cleanup
            &&& shim.fd_context.parent_fds@.contains(fds.authority)
            &&& shim.fd_context.parent_fds@.contains(fds.display)
            &&& shim.fd_context.parent_fds@.len() == 2
        }),
{
    let env = &chosen_env(settings.env, *current);
    let extra = match settings.extra_args {
        Some(args) => text::texts(args@),
        None => Seq::empty(),
    };
    server::law_leveled_arguments(
        chosen(settings.vt, env),
        chosen(settings.seat, env),
        fd::fd_path(fds.authority),
        settings.log_level,
        fds.display,
        extra,
    );
    fd::law_fd_path(fds.authority);
    let all = shim.fd_context.parent_fds@;
    assert(all[0] == fds.authority);
    assert(all[1] == fds.display);
    if settings.extra_args is Some {
        let args = settings.extra_args->0;
        let a = shim.xorg_command@.args.len() - args@.len() - 7;
        assert forall|i: int| 0 <= i < args@.len() implies shim.xorg_command@.args[a + 7 + i]
            == text::utf8((#[trigger] args@[i])@) by {
            assert(extra[i] == args@[i]@);
        }
    }
}

/// What a server and its clients go by that was prepared from settings: the
/// server's file and the session hold the same cookie, which is the one that was
/// drawn; the client's file is where the settings want it, or where the environment
/// wants it; the host is the one of the settings, or this one.
pub proof fn law_prepared_authority(
    shim: XShim,
    settings: Settings,
    current: &EnvBuf,
    runtime_dir_mode: Option<u32>,
    fds: ServerFds,
    drawn: Option<Seq<u8>>,
)
    requires
        is_prepared_with(Ok(shim), settings, current, runtime_dir_mode, fds, drawn),
    ensures
        ({
            let env = match settings.env {
                Some(env) => env,
                None => *current,
            };
            let pending = shim.pending_session;
            let client = pending.client_authority_settings;
            &&& drawn == Some(pending.cookie@)
            &&& encoding::decoded_all(shim.server_authority@) matches Some(entries)
                && entries.len() == 1 && entries[0].data == pending.cookie@ && entries[0].family
                == encoding::Family::Wild
            &&& settings.xauthority_path matches Some(path) ==> client.xauthority_path@ == path@
            &&& settings.xauthority_path is None ==> setup::xauthority_path(&env, runtime_dir_mode)
                == Some(client.xauthority_path@)
            &&& settings.hostname matches Some(hostname) ==> client.hostname@ == hostname@
            &&& settings.hostname is None ==> crate::system::is_hostname(client.hostname@)
            &&& client.skip_locks == settings.unsafe_skip_xauth_locks
        }),
{
    setup::law_clients_authenticate(shim.pending_session.cookie, Seq::empty(), 0);
}

/// Preparing a server fails exactly where the environment has no place for the
/// client's file or the system gives no cookie.
pub proof fn law_not_prepared(
    e: SessionError,
    settings: Settings,
    current: &EnvBuf,
    runtime_dir_mode: Option<u32>,
    fds: ServerFds,
    drawn: Option<Seq<u8>>,
)
    ensures
        ({
            let env = match settings.env {
                Some(env) => env,
                None => *current,
            };
            let placeless = setup::xauthority_path(&env, runtime_dir_mode) is None;
            is_prepared_with(Err(e), settings, current, runtime_dir_mode, fds, drawn) <==> (placeless
                && e == SessionError::Authority(AuthorityError::NoPath)) || (!placeless
                && drawn is None && e == SessionError::Authority(AuthorityError::Random))
        }),
{
}

/// A server that answers with a number is of use wherever the client's file can be
/// written; one that answers with anything else is not.
pub proof fn law_wait(pending: PendingSession, n: u16, line: Seq<u8>)
    ensures
        ({
            let client = pending.client_authority_settings;
            let answer = text::utf8(text::digits(n as nat) + seq!['\n']);
            let failure = setup::client_failure(
                client.xauthority_path@,
                client.hostname@,
                client.skip_locks,
            );
            &&& failure is None ==> wait_failure(pending, answer) is None
            &&& failure matches Some(e) ==> wait_failure(pending, answer) == Some(
                SessionError::Authority(e),
            )
            &&& display::received(line, u16::MAX as nat) matches Err(e) ==> wait_failure(
                pending,
                line,
            ) == Some(SessionError::Display(e))
        }),
{
    display::law_received(n as nat, u16::MAX as nat);
}

/// A variable that is given is taken whatever the environment has; one that is not
/// is that of the environment, if it has one that can be read.
pub proof fn law_chosen<E: EnvRaw, T: EnvironmentVariable>(given: Option<T>, env: &E)
    ensures
        given matches Some(value) ==> chosen(given, env) == Some(value@),
        given is None && env.lookup(T::key_text()) is None ==> chosen(given, env) is None,
        given is None && env.lookup(T::key_text()) is Some ==> match T::deserialized(
            env.lookup(T::key_text())->0,
        ) {
            Ok(value) => chosen(given, env) == Some(value),
            Err(_) => chosen(given, env) is None,
        },
{
}

/// Without any settings there is nothing but what the environment and the system
/// have, and locks are used.
pub proof fn law_defaults(settings: Settings)
    requires
        is_default(settings),
    ensures
        settings.xorg_path@ == text::utf8("/usr/lib/Xorg"@),
        settings.env is None,
        settings.hostname is None,
        settings.vt is None,
        settings.seat is None,
        settings.log_level == 3,
        settings.extra_args is None,
        settings.xauthority_path is None,
        !settings.unsafe_skip_xauth_locks,
{
}

} // verus!
