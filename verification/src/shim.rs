//! A server that is set up in one go.
use vstd::prelude::*;

use crate::command::CommandLine;
use crate::command::CommandView;
use crate::connect;
use crate::connect::Connecting;
use crate::display;
use crate::display::DisplayError;
use crate::display::DisplayReceiver;
use crate::env::container::Env;
use crate::env::container::EnvBuf;
use crate::env::container::EnvRaw;
use crate::env::variables;
use crate::env::variables::ClientAuthority;
use crate::env::variables::Display;
use crate::env::variables::Seat;
use crate::env::variables::VtNumber;
use crate::env::variables::WindowPath;
use crate::fd;
use crate::fd::remap;
use crate::fd::remap::FdMapping;
use crate::fd::remap::FdSource;
use crate::fd::remap::SimpleFdContext;
use crate::path::UnixPath;
use crate::server;
use crate::session;
use crate::session::ServerFds;
use crate::session::SessionError;
use crate::system;
use crate::text;
use crate::xauthority::cookie::Cookie;
use crate::xauthority::encoding;
use crate::xauthority::encoding::Hostname;
use crate::xauthority::file;
use crate::xauthority::file::AuthorityFile;
use crate::xauthority::setup;
use crate::xauthority::setup::AuthorityError;
use crate::xauthority::setup::ClientAuthoritySettings;
use crate::views;

verus! {

// ---------------------------------------------------------------------------
// Authority
// ---------------------------------------------------------------------------
/// Gives the server and its clients the same secret.
pub struct XAuthorityManager {
    pub skip_locks: bool,
    pub xauthority_path: UnixPath,
    pub cookie: Cookie,
    pub hostname: Hostname,
}

/// Why there is no manager.
pub open spec fn manager_failure(has_cookie: bool, path: Option<Seq<u8>>) -> Option<
    AuthorityError,
> {
    if !has_cookie {
        Some(AuthorityError::Random)
    } else if path is None {
        Some(AuthorityError::NoPath)
    } else {
        None
    }
}

impl XAuthorityManager {
    /// A manager for the given cookie, if one could be made, and host.
    pub fn new_with(
        skip_locks: bool,
        xauthority_path: Option<UnixPath>,
        env: &EnvBuf,
        runtime_dir_mode: Option<u32>,
        hostname: Hostname,
        cookie: Option<Cookie>,
    ) -> (r: Result<Self, AuthorityError>)
        requires
            env.well_formed(),
        ensures
            match r {
                Ok(manager) => {
                    &&& cookie is Some
                    &&& manager.cookie@ == cookie->0@
                    &&& manager.hostname@ == hostname@
                    &&& manager.skip_locks == skip_locks
                    &&& session::chosen_path(xauthority_path, env, runtime_dir_mode) == Some(
                        manager.xauthority_path@,
                    )
                },
                Err(e) => manager_failure(
                    cookie is Some,
                    session::chosen_path(xauthority_path, env, runtime_dir_mode),
                ) == Some(e),
            },
    {
        let cookie = match cookie {
            Some(cookie) => cookie,
            None => {
                return Err(AuthorityError::Random);
            },
        };
        match session::choose_path(xauthority_path, env, runtime_dir_mode) {
            Ok(xauthority_path) => Ok(
                XAuthorityManager { skip_locks, xauthority_path, cookie, hostname },
            ),
            Err(e) => Err(e),
        }
    }

    /// A manager with a new cookie.
    pub fn new(
        skip_locks: bool,
        xauthority_path: Option<UnixPath>,
        env: &EnvBuf,
        runtime_dir_mode: Option<u32>,
    ) -> (r: Result<Self, AuthorityError>)
        requires
            env.well_formed(),
        ensures
            exists|drawn: Option<Seq<u8>>| #[trigger]
                setup::is_drawn(drawn) && match r {
                    Ok(manager) => {
                        &&& drawn == Some(manager.cookie@)
                        &&& system::is_hostname(manager.hostname@)
                        &&& manager.skip_locks == skip_locks
                        &&& session::chosen_path(xauthority_path, env, runtime_dir_mode) == Some(
                            manager.xauthority_path@,
                        )
                    },
                    Err(e) => manager_failure(
                        drawn is Some,
                        session::chosen_path(xauthority_path, env, runtime_dir_mode),
                    ) == Some(e),
                },
    {
        let cookie = setup::make_cookie();
        let hostname = setup::get_hostname();
        Self::new_with(skip_locks, xauthority_path, env, runtime_dir_mode, hostname, cookie)
    }

    /// What has to be in the server's private file.
    pub fn setup_server(&self) -> (r: Vec<u8>)
        ensures
            r@ == encoding::encoded(setup::wildcard_entry(self.cookie@, 0)),
    {
        setup::server_authority(&self.cookie)
    }

    /// The client's file, and the variable by which clients find it.
    pub fn setup_client(&self, display: &Display) -> (r: Result<
        (ClientAuthority, AuthorityFile),
        AuthorityError,
    >)
        ensures
            match r {
                Ok((authority, xauth_file)) => {
                    &&& setup::client_failure(
                        self.xauthority_path@,
                        self.hostname@,
                        self.skip_locks,
                    ) is None
                    &&& authority@ == self.xauthority_path@
                    &&& xauth_file.path@ == self.xauthority_path@
                    &&& file::is_locked(xauth_file, !self.skip_locks)
                    &&& !xauth_file.exclusive
                    &&& xauth_file.contents@ == encoding::encoded_all(
                        setup::client_entries(self.cookie@, self.hostname@, display@),
                    )
                },
                Err(e) => setup::client_failure(
                    self.xauthority_path@,
                    self.hostname@,
                    self.skip_locks,
                ) == Some(e),
            },
    {
        let settings = ClientAuthoritySettings {
            xauthority_path: self.xauthority_path.clone(),
            hostname: text::copy(&self.hostname),
            skip_locks: self.skip_locks,
        };
        setup::setup_client(settings, &self.cookie, display)
    }

    /// The cookie, for when nothing else is needed any more.
    pub fn finalize_into_cookie(self) -> (r: Cookie)
        ensures
            r@ == self.cookie@,
    {
        self.cookie
    }
}

// ---------------------------------------------------------------------------
// The server
// ---------------------------------------------------------------------------
/// The numbers that the server's descriptors have in the server: the first
/// that are free.
pub open spec fn server_mappings(fds: ServerFds) -> Seq<FdMapping> {
    seq![
        FdMapping { parent_fd: fds.authority, child_fd: 3 },
        FdMapping { parent_fd: fds.display, child_fd: 4 },
    ]
}

/// What the server is started with.
pub open spec fn server_view(
    path: Seq<u8>,
    vt: Option<u32>,
    seat: Option<Seq<char>>,
    extra_args: Seq<Seq<char>>,
) -> CommandView {
    CommandView {
        program: path,
        args: server::plain_args(
            vt,
            seat,
            fd::fd_path(3),
            extra_args,
            4,
        ),
        env: server::xorg_env(),
        current_dir: None,
        silent: false,
        cleanup: true,
    }
}

/// Prepares the command of a server, and the descriptors that it is given.
pub fn prepare_xorg(
    path: UnixPath,
    vt: Option<VtNumber>,
    seat: Option<Seat>,
    fds: ServerFds,
    extra_args: Vec<String>,
) -> (r: (CommandLine, SimpleFdContext))
    ensures
        r.0@ == server_view(
            path@,
            views::viewed(vt),
            views::viewed(seat),
            text::texts(extra_args@),
        ),
        r.1.mappings@ == server_mappings(fds),
        r.1.well_formed(),
        r.1.free_fd_source.remaining() == remap::numbers(5, 7),
{
    let mut fd_context = SimpleFdContext::new(2);
    assert(fd_context.free_fd_source.remaining()[0] == 3);
    let authority = fd_context.pass(fds.authority).unwrap();
    assert(fd_context.free_fd_source.remaining()[0] == 4);
    let display = fd_context.pass(fds.display).unwrap();
    assert(fd_context.mappings@ =~= server_mappings(fds));
    assert(fd_context.free_fd_source.remaining() =~= remap::numbers(5, 7));
    let vt: Option<u32> = match vt {
        Some(vt) => Some(vt.number),
        None => None,
    };
    let seat = match seat {
        Some(seat) => Some(seat.name),
        None => None,
    };
    let command = server::plain_command(
        path,
        vt,
        seat,
        authority.path(),
        &extra_args,
        display.as_raw_fd(),
    );
    (command, fd_context)
}

/// How the server is to be set up.
pub struct Settings {
    /// Path to Xorg binary
    pub path: Option<UnixPath>,
    /// Override current environment
    pub env: Option<EnvBuf>,
    /// VT number to use. If set to None, it will be determined by Xorg.
    pub vt: Option<VtNumber>,
    /// Login seat to use. If set to None, Xorg will operate without a seat.
    pub seat: Option<Seat>,
    /// Extra arguments to pass to Xorg
    pub extra_args: Vec<String>,
    /// Where to place the Xauthority file
    pub xauthority_path: Option<UnixPath>,
    /// Do not use locks when dealing with Xauthority. Marginally improves
    /// performance.
    ///
    /// Only to be set if no other process will interact with Xauthority while
    /// in setup, which without an `xauthority_path` can hardly be known.
    pub unsafe_skip_locks: Option<bool>,
    /// Override paths used for Xresources loading. No resource is loaded so far.
    pub resources: Option<Vec<UnixPath>>,
}

impl Default for Settings {
    fn default() -> (r: Self)
        ensures
            is_default(r),
    {
        Settings {
            path: None,
            env: None,
            vt: None,
            seat: None,
            extra_args: Vec::new(),
            xauthority_path: None,
            unsafe_skip_locks: None,
            resources: None,
        }
    }
}

/// Whether nothing is set.
pub open spec fn is_default(settings: Settings) -> bool {
    &&& settings.path is None
    &&& settings.env is None
    &&& settings.vt is None
    &&& settings.seat is None
    &&& settings.extra_args@.len() == 0
    &&& settings.xauthority_path is None
    &&& settings.unsafe_skip_locks is None
    &&& settings.resources is None
}

/// A server that is ready to be started, and what is needed once it runs.
pub struct PendingShim {
    pub xorg_command: CommandLine,
    /// The descriptors that the server is given.
    pub fd_context: SimpleFdContext,
    /// What has to be in the server's private file when it starts.
    pub server_authority: Vec<u8>,
    pub authority_manager: XAuthorityManager,
    pub window_path: Option<WindowPath>,
}

/// Where the program of the server is.
pub open spec fn chosen_program(given: Option<UnixPath>) -> Seq<u8> {
    match given {
        Some(path) => path@,
        None => text::utf8(server::DEFAULT_XORG_PATH@),
    }
}

/// Whether locks are to be left out.
pub open spec fn chosen_skip(given: Option<bool>) -> bool {
    match given {
        Some(skip) => skip,
        None => false,
    }
}

/// Where the client's file of a server is to be.
pub open spec fn wanted_path(
    settings: Settings,
    current: &EnvBuf,
    runtime_dir_mode: Option<u32>,
) -> Option<Seq<u8>> {
    session::chosen_path(
        settings.xauthority_path,
        &session::chosen_env(settings.env, *current),
        runtime_dir_mode,
    )
}

/// Whether a server that is ready is the one that was asked for.
pub open spec fn is_prepared(
    pending: PendingShim,
    settings: Settings,
    current: &EnvBuf,
    runtime_dir_mode: Option<u32>,
    fds: ServerFds,
) -> bool {
    let manager = pending.authority_manager;
    &&& pending.xorg_command@ == server_view(
        chosen_program(settings.path),
        views::viewed(settings.vt),
        views::viewed(settings.seat),
        text::texts(settings.extra_args@),
    )
    &&& pending.fd_context.mappings@ == server_mappings(fds)
    &&& pending.fd_context.well_formed()
    &&& pending.fd_context.free_fd_source.remaining() == remap::numbers(5, 7)
    &&& pending.server_authority@ == encoding::encoded(setup::wildcard_entry(manager.cookie@, 0))
    &&& manager.skip_locks == chosen_skip(settings.unsafe_skip_locks)
    &&& wanted_path(settings, current, runtime_dir_mode) == Some(manager.xauthority_path@)
    &&& views::viewed(pending.window_path) == (match settings.vt {
        Some(vt) => Some(
            variables::window_path(
                variables::previous_window_path(&session::chosen_env(settings.env, *current)),
                vt@ as nat,
            ),
        ),
        None => None,
    })
}

/// Makes a server ready, given the name of this host and a cookie, if one could
/// be made.
pub fn setup_xorg_with(
    settings: Settings,
    current: &EnvBuf,
    runtime_dir_mode: Option<u32>,
    fds: ServerFds,
    hostname: Hostname,
    cookie: Option<Cookie>,
) -> (r: Result<PendingShim, SessionError>)
    requires
        current.well_formed(),
        session::in_order(settings.env),
    ensures
        match r {
            Ok(pending) => {
                &&& cookie is Some
                &&& is_prepared(pending, settings, current, runtime_dir_mode, fds)
                &&& pending.authority_manager.cookie@ == cookie->0@
                &&& pending.authority_manager.hostname@ == hostname@
            },
            Err(e) => match manager_failure(
                cookie is Some,
                wanted_path(settings, current, runtime_dir_mode),
            ) {
                Some(why) => e == SessionError::Authority(why),
                None => false,
            },
        },
{
    let given_env = settings.env;
    let env = session::choose_env(&given_env, current);
    let window_path = match &settings.vt {
        Some(vt) => Some(WindowPath::previous_plus_vt(env, vt)),
        None => None,
    };
    let skip_locks: bool = match settings.unsafe_skip_locks {
        Some(skip) => skip,
        None => false,
    };
    let authority_manager = match XAuthorityManager::new_with(
        skip_locks,
        settings.xauthority_path,
        env,
        runtime_dir_mode,
        hostname,
        cookie,
    ) {
        Ok(manager) => manager,
        Err(e) => {
            return Err(SessionError::Authority(e));
        },
    };
    let server_authority = authority_manager.setup_server();
    let path = match settings.path {
        Some(path) => path,
        None => UnixPath::from_text(server::DEFAULT_XORG_PATH),
    };
    let (xorg_command, fd_context) = prepare_xorg(
        path,
        settings.vt,
        settings.seat,
        fds,
        settings.extra_args,
    );
    Ok(PendingShim { xorg_command, fd_context, server_authority, authority_manager, window_path })
}

/// Whether a server was made ready with a cookie that was drawn for it and with
/// the name of this host; the cookie is none where the system gave none.
pub open spec fn is_prepared_with(
    r: Result<PendingShim, SessionError>,
    settings: Settings,
    current: &EnvBuf,
    runtime_dir_mode: Option<u32>,
    fds: ServerFds,
    drawn: Option<Seq<u8>>,
) -> bool {
    match r {
        Ok(pending) => {
            &&& is_prepared(pending, settings, current, runtime_dir_mode, fds)
            &&& drawn == Some(pending.authority_manager.cookie@)
            &&& system::is_hostname(pending.authority_manager.hostname@)
        },
        Err(e) => match manager_failure(
            drawn is Some,
            wanted_path(settings, current, runtime_dir_mode),
        ) {
            Some(why) => e == SessionError::Authority(why),
            None => false,
        },
    }
}

/// Makes a server ready.
///
/// `current` is the environment of the process, and `runtime_dir_mode` what the
/// system says of the permissions of the runtime directory in the environment of
/// [`session::choose_env`]. This should be called from the context of the
/// session user, *not* the root user.
pub fn setup_xorg_with_settings(
    settings: Settings,
    current: &EnvBuf,
    runtime_dir_mode: Option<u32>,
    fds: ServerFds,
) -> (r: Result<PendingShim, SessionError>)
    requires
        current.well_formed(),
        session::in_order(settings.env),
    ensures
        exists|drawn: Option<Seq<u8>>|
            setup::is_drawn(drawn) && #[trigger] is_prepared_with(
                r,
                settings,
                current,
                runtime_dir_mode,
                fds,
                drawn,
            ),
{
    let cookie = setup::make_cookie();
    let hostname = setup::get_hostname();
    let ghost drawn = views::viewed(cookie);
    let r = setup_xorg_with(settings, current, runtime_dir_mode, fds, hostname, cookie);
    assert(is_prepared_with(r, settings, current, runtime_dir_mode, fds, drawn));
    r
}

/// Makes a server ready, without any settings.
pub fn setup_xorg(current: &EnvBuf, runtime_dir_mode: Option<u32>, fds: ServerFds) -> (r: Result<
    PendingShim,
    SessionError,
>)
    requires
        current.well_formed(),
    ensures
        exists|settings: Settings, drawn: Option<Seq<u8>>|
            is_default(settings) && setup::is_drawn(drawn) && #[trigger] is_prepared_with(
                r,
                settings,
                current,
                runtime_dir_mode,
                fds,
                drawn,
            ),
{
    let settings: Settings = Default::default();
    setup_xorg_with_settings(settings, current, runtime_dir_mode, fds)
}

/// A server that runs.
pub struct XShim {
    /// What a client has to find in its environment.
    pub client_env: (Display, ClientAuthority, Option<WindowPath>),
    pub cookie: Cookie,
}

/// Why a server that was started is of no use.
pub open spec fn finish_failure(manager: XAuthorityManager, line: Seq<u8>) -> Option<SessionError> {
    match display::received(line, u16::MAX as nat) {
        Err(e) => Some(SessionError::Display(e)),
        Ok(_) => match setup::client_failure(
            manager.xauthority_path@,
            manager.hostname@,
            manager.skip_locks,
        ) {
            Some(e) => Some(SessionError::Authority(e)),
            None => None,
        },
    }
}

impl PendingShim {
    /// The running server, once it has said what display it has taken, and the
    /// file that has to be written for its clients.
    pub fn finish(self, future_display: DisplayReceiver) -> (r: Result<
        (XShim, AuthorityFile),
        SessionError,
    >)
        ensures
            match r {
                Ok((shim, xauth_file)) => {
                    let manager = self.authority_manager;
                    &&& finish_failure(manager, future_display.line@) is None
                    &&& display::received(future_display.line@, u16::MAX as nat) == Ok::<
                        nat,
                        DisplayError,
                    >(shim.client_env.0@ as nat)
                    &&& shim.client_env.1@ == manager.xauthority_path@
                    &&& shim.client_env.2 == self.window_path
                    &&& shim.cookie@ == manager.cookie@
                    &&& xauth_file.path@ == manager.xauthority_path@
                    &&& file::is_locked(xauth_file, !manager.skip_locks)
                    &&& !xauth_file.exclusive
                    &&& xauth_file.contents@ == encoding::encoded_all(
                        setup::client_entries(
                            manager.cookie@,
                            manager.hostname@,
                            shim.client_env.0@,
                        ),
                    )
                },
                Err(e) => finish_failure(self.authority_manager, future_display.line@) == Some(e),
            },
    {
        let display = match future_display.blocking_wait() {
            Ok(display) => display,
            Err(e) => {
                return Err(SessionError::Display(e));
            },
        };
        let (client_authority, xauth_file) = match self.authority_manager.setup_client(&display) {
            Ok(client) => client,
            Err(e) => {
                return Err(SessionError::Authority(e));
            },
        };
        let cookie = self.authority_manager.finalize_into_cookie();
        Ok(
            (
                XShim { client_env: (display, client_authority, self.window_path), cookie },
                xauth_file,
            ),
        )
    }
}

impl XShim {
    /// The attempts to connect to the server.
    pub fn connection(&self) -> (r: Connecting)
        requires
            self.client_env.0@ <= connect::LAST_DISPLAY,
        ensures
            r.remaining() == connect::local_attempts(self.client_env.0@, self.cookie@),
    {
        Connecting::new(&self.client_env.0, &self.cookie)
    }
}

// ---------------------------------------------------------------------------
// Laws
// ---------------------------------------------------------------------------
/// What a server is started with that was set up from settings: the program, the
/// terminal and the seat of the settings and no others, all extra arguments, and the
/// descriptors under the numbers that it is told.
pub proof fn law_prepared_command(
    pending: PendingShim,
    settings: Settings,
    current: &EnvBuf,
    runtime_dir_mode: Option<u32>,
    fds: ServerFds,
    drawn: Option<Seq<u8>>,
)
    requires
        is_prepared_with(Ok(pending), settings, current, runtime_dir_mode, fds, drawn),
    ensures
        ({
            let s: int = if settings.seat is Some {
                2
            } else {
                0
            };
            let v: int = s + if settings.vt is Some {
                2int
            } else {
                0int
            };
            let n = settings.extra_args@.len() as int;
            let run = pending.xorg_command@;
            &&& settings.path matches Some(path) ==> run.program == path@
            &&& settings.path is None ==> run.program == text::utf8("/usr/lib/Xorg"@)
            &&& run.args.len() == v + n + 14
            &&& settings.seat matches Some(seat) ==> run.args[0] == text::utf8("-seat"@)
                && run.args[1] == text::utf8(seat@)
            &&& settings.vt matches Some(vt) ==> run.args[s] == text::utf8(
                "vt"@ + text::digits(vt@ as nat),
            ) && run.args[s + 1] == text::utf8("-novtswitch"@)
            &&& run.args[v] == text::utf8("-auth"@)
            &&& run.args[v + 1] == text::utf8("/proc/self/fd/"@ + text::digits(3))
            &&& forall|i: int|
                0 <= i < n ==> run.args[v + 12 + i] == text::utf8(
                    (#[trigger] settings.extra_args@[i])@,
                )
            &&& run.args[v + 12 + n] == text::utf8("-displayfd"@)
            &&& run.args[v + 13 + n] == text::utf8(text::digits(4))
            &&& run.env == seq![("XORG_RUN_AS_USER_OK"@, Some(text::utf8("1"@)))]
            &&& run.current_dir is None
            &&& !run.silent
            &&& run.cleanup
            &&& pending.fd_context.mappings@.len() == 2
            &&& pending.fd_context.mappings@[0].parent_fd == fds.authority
            &&& pending.fd_context.mappings@[0].child_fd == 3
            &&& pending.fd_context.mappings@[1].parent_fd == fds.display
            &&& pending.fd_context.mappings@[1].child_fd == 4
        }),
{
    let extra = text::texts(settings.extra_args@);
    server::law_plain_arguments(
        views::viewed(settings.vt),
        views::viewed(settings.seat),
        fd::fd_path(3),
        extra,
        4,
    );
    fd::law_fd_path(3);
    let v = pending.xorg_command@.args.len() - extra.len() - 14;
    assert forall|i: int| 0 <= i < extra.len() implies pending.xorg_command@.args[v + 12 + i]
        == text::utf8((#[trigger] settings.extra_args@[i])@) by {
        assert(extra[i] == settings.extra_args@[i]@);
    }
}

/// What a server and its clients go by that was set up from settings: the server's
/// file and the clients' hold the cookie that was drawn, the clients' file is where
/// the settings or the environment want it, and the path to the window is known
/// exactly where a terminal was given.
pub proof fn law_prepared_authority(
    pending: PendingShim,
    settings: Settings,
    current: &EnvBuf,
    runtime_dir_mode: Option<u32>,
    fds: ServerFds,
    drawn: Option<Seq<u8>>,
)
    requires
        is_prepared_with(Ok(pending), settings, current, runtime_dir_mode, fds, drawn),
    ensures
        ({
            let env = match settings.env {
                Some(env) => env,
                None => *current,
            };
            let manager = pending.authority_manager;
            &&& drawn == Some(manager.cookie@)
            &&& system::is_hostname(manager.hostname@)
            &&& encoding::decoded_all(pending.server_authority@) matches Some(entries)
                && entries.len() == 1 && entries[0].data == manager.cookie@ && entries[0].family
                == encoding::Family::Wild
            &&& settings.xauthority_path matches Some(path) ==> manager.xauthority_path@ == path@
            &&& settings.xauthority_path is None ==> setup::xauthority_path(&env, runtime_dir_mode)
                == Some(manager.xauthority_path@)
            &&& manager.skip_locks == (settings.unsafe_skip_locks == Some(true))
            &&& pending.window_path is Some <==> settings.vt is Some
            &&& settings.vt is Some ==> text::split_at_each(pending.window_path->0@, ':').last()
                == text::digits(settings.vt->0@ as nat)
        }),
{
    setup::law_clients_authenticate(pending.authority_manager.cookie, Seq::empty(), 0);
    if settings.vt is Some {
        variables::law_window_path(
            variables::previous_window_path(&session::chosen_env(settings.env, *current)),
            settings.vt->0@ as nat,
        );
    }
}

/// Setting a server up fails exactly where the system gives no cookie or the
/// environment has no place for the clients' file.
pub proof fn law_not_prepared(
    e: SessionError,
    settings: Settings,
    current: &EnvBuf,
    runtime_dir_mode: Option<u32>,
    fds: ServerFds,
    drawn: Option<Seq<u8>>,
)
    ensures
        ({
            let env = match settings.env {
                Some(env) => env,
                None => *current,
            };
            let placeless = setup::xauthority_path(&env, runtime_dir_mode) is None;
            is_prepared_with(Err(e), settings, current, runtime_dir_mode, fds, drawn) <==> (drawn
                is None && e == SessionError::Authority(AuthorityError::Random)) || (drawn is Some
                && placeless && e == SessionError::Authority(AuthorityError::NoPath))
        }),
{
}

/// A server that answers with a number is of use wherever the clients' file can be
/// written; one that answers with anything else is not.
pub proof fn law_finish(manager: XAuthorityManager, n: u16, line: Seq<u8>)
    ensures
        ({
            let answer = text::utf8(text::digits(n as nat) + seq!['\n']);
            let failure = setup::client_failure(
                manager.xauthority_path@,
                manager.hostname@,
                manager.skip_locks,
            );
            &&& failure is None ==> finish_failure(manager, answer) is None
            &&& failure matches Some(e) ==> finish_failure(manager, answer) == Some(
                SessionError::Authority(e),
            )
            &&& display::received(line, u16::MAX as nat) matches Err(e) ==> finish_failure(
                manager,
                line,
            ) == Some(SessionError::Display(e))
        }),
{
    display::law_received(n as nat, u16::MAX as nat);
}

/// Without any settings there is nothing but what the environment and the system
/// have, and locks are used.
pub proof fn law_defaults(settings: Settings)
    requires
        is_default(settings),
    ensures
        settings.path is None,
        settings.env is None,
        settings.vt is None,
        settings.seat is None,
        settings.extra_args@.len() == 0,
        settings.xauthority_path is None,
        settings.unsafe_skip_locks is None,
{
}

} // verus!
