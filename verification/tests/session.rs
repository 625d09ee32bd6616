use xshim::command::{CleanupExt, CommandLine};
use xshim::connect::{load_resources, Address, ConnectStep, Connecting, NotConnected};
use xshim::display::{DisplayError, DisplayReceiver};
use xshim::env::container::{EnvBuf, EnvRaw};
use xshim::env::diff::Entry;
use xshim::env::variables::{Display, Seat, VtNumber};
use xshim::fd::remap::FdMapping;
use xshim::path::UnixPath;
use xshim::session;
use xshim::session::{ServerFds, SessionError};
use xshim::shim;
use xshim::xauthority::cookie::Cookie;
use xshim::xauthority::encoding::Entry as XauthEntry;
use xshim::xauthority::lock::LockError;
use xshim::xauthority::setup::AuthorityError;

const FDS: ServerFds = ServerFds { authority: 20, display: 21 };

fn env(pairs: &[(&str, &str)]) -> EnvBuf {
    EnvBuf::from_values(
        pairs.iter().map(|(k, v)| (k.to_string(), v.as_bytes().to_vec())).collect(),
    )
}

fn args(command: &CommandLine) -> Vec<String> {
    command.args.iter().map(|a| String::from_utf8(a.clone()).unwrap()).collect()
}

fn is_xorg_env(command: &CommandLine) -> bool {
    command.env.len() == 1
        && matches!(&command.env[0], Entry::Assign { key, value }
            if key == "XORG_RUN_AS_USER_OK" && value == b"1")
}

fn receiver(line: &[u8]) -> DisplayReceiver {
    DisplayReceiver { line: line.to_vec() }
}

#[test]
fn displays_that_are_received() {
    let wait = |line: &[u8]| receiver(line).blocking_wait().map(|d| d.number());
    assert_eq!(wait(b"0\n"), Ok(0));
    assert_eq!(wait(b"12 \t\n"), Ok(12));
    assert_eq!(wait(b"65535"), Ok(65535));
    assert_eq!(wait(b"65536\n"), Err(DisplayError::Invalid));
    assert_eq!(wait(b"\n"), Err(DisplayError::Invalid));
    assert_eq!(wait(b" 1\n"), Err(DisplayError::Invalid));
    assert_eq!(wait(b""), Err(DisplayError::Internal));
    assert_eq!(wait(&[0xff, b'\n']), Err(DisplayError::Unreadable));
}

#[test]
fn commands_that_end_with_their_parent() {
    let command = CommandLine::new(UnixPath::from_text("xterm"));
    assert!(!command.cleanup && !command.silent && command.current_dir.is_none());
    assert!(command.with_cleanup().cleanup);
}

#[test]
fn a_server_with_all_settings() {
    let mut settings = session::Settings::default();
    settings.xorg_path = UnixPath::from_text("/opt/Xorg");
    settings.vt = Some(VtNumber { number: 7 });
    settings.seat = Some(Seat { name: "seat0".to_string() });
    settings.hostname = Some(b"host".to_vec());
    settings.log_level = 5;
    settings.extra_args = Some(vec!["-dpi".to_string(), "96".to_string()]);
    settings.xauthority_path = Some(UnixPath::from_text("/tmp/xauth"));
    settings.unsafe_skip_xauth_locks = true;
    let e = env(&[("HOME", "/home/u"), ("XDG_VTNR", "2")]);
    let shim = session::xorg_new_with(
        settings,
        &e,
        None,
        FDS,
        b"other".to_vec(),
        Some(Cookie::new([7; 16])),
    )
    .unwrap_or_else(|_| panic!("everything is there"));
    assert_eq!(shim.xorg_command.program.bytes, b"/opt/Xorg");
    assert_eq!(
        args(&shim.xorg_command),
        [
            "-background", "none", "-noreset", "-keeptty", "-nolisten", "tcp", "vt7",
            "-novtswitch", "-seat", "seat0", "-auth", "/proc/self/fd/20", "-logfile /dev/null",
            "-verbose", "5", "-displayfd", "21", "-dpi", "96",
        ]
    );
    assert!(is_xorg_env(&shim.xorg_command));
    assert!(shim.xorg_command.silent && shim.xorg_command.cleanup);
    assert_eq!(shim.fd_context.parent_fds, [20, 21]);
    let (entry, end) = XauthEntry::decode(&shim.server_authority, 0)
        .unwrap_or_else(|_| panic!("there is an entry"));
    assert_eq!(end, shim.server_authority.len());
    assert_eq!(entry.data, [7; 16]);
    let client = &shim.pending_session.client_authority_settings;
    assert_eq!(client.xauthority_path.bytes, b"/tmp/xauth");
    assert_eq!(client.hostname, b"host");
    assert!(client.skip_locks);
}

#[test]
fn a_server_without_settings() {
    let e = env(&[("XDG_RUNTIME_DIR", "/run/user/1"), ("XDG_SEAT", "seat1")]);
    let shim =
        session::xorg_new_default(&e, Some(0o700), FDS).unwrap_or_else(|_| panic!("no server"));
    assert_eq!(shim.xorg_command.program.bytes, b"/usr/lib/Xorg");
    assert_eq!(
        args(&shim.xorg_command),
        [
            "-background", "none", "-noreset", "-keeptty", "-nolisten", "tcp", "-seat", "seat1",
            "-auth", "/proc/self/fd/20", "-logfile /dev/null", "-verbose", "3", "-displayfd",
            "21",
        ]
    );
    let client = &shim.pending_session.client_authority_settings;
    assert_eq!(client.xauthority_path.bytes, b"/run/user/1/Xauthority");
    assert!(!client.hostname.is_empty());
    assert!(!client.hostname.contains(&0));
    assert!(!client.skip_locks);
}

#[test]
fn servers_that_cannot_be_prepared() {
    let none = env(&[]);
    let mut settings = session::Settings::default();
    settings.xauthority_path = Some(UnixPath::from_text("/tmp/xauth"));
    assert_eq!(
        session::xorg_new(settings, &none, None, FDS).err(),
        Some(SessionError::Authority(AuthorityError::NoPath))
    );
    let home = env(&[("HOME", "/home/u")]);
    assert_eq!(
        session::xorg_new_with(
            session::Settings::default(),
            &home,
            None,
            FDS,
            Vec::new(),
            None
        )
        .err(),
        Some(SessionError::Authority(AuthorityError::Random))
    );
    assert_eq!(
        shim::setup_xorg(&none, None, FDS).err(),
        Some(SessionError::Authority(AuthorityError::NoPath))
    );
    assert_eq!(
        shim::setup_xorg_with(
            shim::Settings::default(),
            &none,
            None,
            FDS,
            Vec::new(),
            None
        )
        .err(),
        Some(SessionError::Authority(AuthorityError::Random))
    );
}

#[test]
fn environments_that_are_chosen() {
    let current = env(&[("HOME", "/home/u")]);
    let none = None;
    let given = Some(env(&[("HOME", "/root")]));
    let home = |e: &EnvBuf| e.raw_get("HOME");
    assert_eq!(home(session::choose_env(&none, &current)), Some(b"/home/u".to_vec()));
    assert_eq!(home(session::choose_env(&given, &current)), Some(b"/root".to_vec()));
    let e = env(&[("XDG_VTNR", "4")]);
    let vt = session::choose_variable::<_, VtNumber>(None, &e);
    assert_eq!(vt.map(|v| v.number), Some(4));
    let vt = session::choose_variable(Some(VtNumber { number: 9 }), &e);
    assert_eq!(vt.map(|v| v.number), Some(9));
    assert!(session::choose_variable::<_, Seat>(None, &e).is_none());
}

#[test]
fn a_session_that_gets_its_display() {
    let e = env(&[("HOME", "/home/u")]);
    let shim = session::xorg_new(session::Settings::default(), &e, None, FDS)
        .unwrap_or_else(|_| panic!("no server"));
    let secret = shim.pending_session.cookie.data();
    let (session, file) = shim
        .pending_session
        .wait_for_display(receiver(b"3\n"))
        .unwrap_or_else(|_| panic!("there is a display"));
    assert_eq!(file.path.bytes, b"/home/u/.Xauthority");
    let (entry, _) =
        XauthEntry::decode(&file.contents, 0).unwrap_or_else(|_| panic!("there is an entry"));
    assert_eq!(entry.display, b"3");
    assert_eq!(entry.data, secret);
    let mut connecting = session.connect();
    let first = connecting.next_attempt().unwrap_or_else(|| panic!("there is a socket"));
    assert_eq!(first.auth_name, b"MIT-MAGIC-COOKIE-1");
    assert_eq!(first.auth_data, secret);
    let (display, authority) = session.client_env();
    assert_eq!(display.number(), 3);
    assert_eq!(authority.path.bytes, b"/home/u/.Xauthority");
}

#[test]
fn sessions_that_get_no_display() {
    let pending = |path: &str| {
        let mut settings = session::Settings::default();
        settings.xauthority_path = Some(UnixPath::from_text(path));
        session::xorg_new(settings, &env(&[("HOME", "/home/u")]), None, FDS)
            .unwrap_or_else(|_| panic!("no server"))
            .pending_session
    };
    assert_eq!(
        pending("/x").wait_for_display(receiver(b"")).err(),
        Some(SessionError::Display(DisplayError::Internal))
    );
    assert_eq!(
        pending("/").wait_for_display(receiver(b"1\n")).err(),
        Some(SessionError::Authority(AuthorityError::Lock(LockError::NoFileName)))
    );
}

#[test]
fn addresses_are_tried_in_order() {
    let cookie = Cookie::new([1; 16]);
    let mut connecting = Connecting::new(&Display::from_number(12), &cookie);
    let first = connecting.next_attempt().unwrap_or_else(|| panic!("there is a socket"));
    assert!(matches!(first.address, Address::Socket(path) if path == "/tmp/.X11-unix/X12"));
    assert_eq!(first.screen, 0);
    let second = connecting.next_attempt().unwrap_or_else(|| panic!("there is a port"));
    assert!(matches!(second.address, Address::Hostname(host, 6012) if host == "localhost"));
    assert_eq!(second.auth_data, [1; 16]);
    assert!(connecting.next_attempt().is_none());
    assert!(connecting.next_attempt().is_none());
    let mut last = load_resources(&Display::from_number(59535), &cookie, &Vec::new());
    last.next_attempt();
    let port = last.next_attempt().unwrap_or_else(|| panic!("there is a port"));
    assert!(matches!(port.address, Address::Hostname(_, 65535)));
}

/// Connects where the given addresses answer: the address that was taken.
fn connected_by(mut connecting: Connecting, answering: &[&str]) -> Result<String, NotConnected> {
    let mut taken = None;
    loop {
        match connecting.after(taken.is_some()) {
            ConnectStep::Attempt(attempt) => {
                assert_eq!(attempt.auth_name, b"MIT-MAGIC-COOKIE-1");
                let address = match attempt.address {
                    Address::Socket(path) => path,
                    Address::Hostname(host, port) => format!("{host}:{port}"),
                    Address::Other => panic!("an address of which nothing is known"),
                };
                taken = answering.contains(&address.as_str()).then_some(address);
            }
            ConnectStep::Connected => {
                return Ok(taken.unwrap_or_else(|| panic!("nothing has answered")));
            }
            ConnectStep::Failed(e) => return Err(e),
        }
    }
}

#[test]
fn the_first_address_that_answers_is_taken() {
    let cookie = Cookie::new([1; 16]);
    let display = Display::from_number(3);
    let connect = |answering: &[&str]| connected_by(Connecting::new(&display, &cookie), answering);
    let socket = "/tmp/.X11-unix/X3";
    let port = "localhost:6003";
    assert_eq!(connect(&[socket, port]), Ok(socket.to_string()));
    assert_eq!(connect(&[socket]), Ok(socket.to_string()));
    assert_eq!(connect(&[port]), Ok(port.to_string()));
    assert_eq!(connect(&[]), Err(NotConnected));
    assert_eq!(NotConnected.message(), "Failed to connect to Xorg");
}

#[test]
fn resources_without_a_connection() {
    let cookie = Cookie::new([1; 16]);
    let display = Display::from_number(3);
    let paths = vec![UnixPath::from_text("/etc/X11/Xresources")];
    let load = |answering: &[&str]| {
        connected_by(load_resources(&display, &cookie, &paths), answering)
    };
    assert_eq!(load(&[]), Err(NotConnected));
    assert_eq!(load(&["localhost:6003"]), Ok("localhost:6003".to_string()));
}

#[test]
fn steps_behind_the_end() {
    let mut connecting = Connecting::new(&Display::from_number(0), &Cookie::new([1; 16]));
    assert!(matches!(connecting.after(true), ConnectStep::Connected));
    assert!(matches!(connecting.after(false), ConnectStep::Attempt(_)));
    assert!(matches!(connecting.after(false), ConnectStep::Attempt(_)));
    assert!(matches!(connecting.after(false), ConnectStep::Failed(_)));
    assert!(matches!(connecting.after(false), ConnectStep::Failed(_)));
}

#[test]
fn a_server_that_is_set_up_in_one_go() {
    let e = env(&[("XDG_RUNTIME_DIR", "/run/user/1"), ("XDG_VTNR", "9"), ("WINDOWPATH", "1")]);
    let mut settings = shim::Settings::default();
    settings.vt = Some(VtNumber { number: 2 });
    settings.seat = Some(Seat { name: "seat0".to_string() });
    settings.extra_args = vec!["-nocursor".to_string()];
    let pending = shim::setup_xorg_with(
        settings,
        &e,
        Some(0o700),
        FDS,
        b"desktop".to_vec(),
        Some(Cookie::new([9; 16])),
    )
    .unwrap_or_else(|_| panic!("no server"));
    assert_eq!(pending.xorg_command.program.bytes, b"/usr/lib/Xorg");
    assert_eq!(
        args(&pending.xorg_command),
        [
            "-seat", "seat0", "vt2", "-novtswitch", "-auth", "/proc/self/fd/3", "-nolisten",
            "tcp", "-background", "none", "-noreset", "-keeptty", "-verbose", "3", "-logfile",
            "/dev/null", "-nocursor", "-displayfd", "4",
        ]
    );
    assert!(is_xorg_env(&pending.xorg_command));
    assert!(!pending.xorg_command.silent && pending.xorg_command.cleanup);
    assert_eq!(
        pending.fd_context.mappings,
        [FdMapping { parent_fd: 20, child_fd: 3 }, FdMapping { parent_fd: 21, child_fd: 4 }]
    );
    assert_eq!(pending.server_authority, pending.authority_manager.setup_server());
    let (shim, file) =
        pending.finish(receiver(b"1\n")).unwrap_or_else(|_| panic!("there is a display"));
    assert_eq!(shim.client_env.0.number(), 1);
    assert_eq!(shim.client_env.1.path.bytes, b"/run/user/1/Xauthority");
    assert_eq!(shim.client_env.2.as_ref().map(|w| w.name.as_str()), Some("1:2"));
    assert_eq!(file.path.bytes, b"/run/user/1/Xauthority");
    let mut connecting = shim.connection();
    let first = connecting.next_attempt().unwrap_or_else(|| panic!("there is a socket"));
    assert_eq!(first.auth_data, [9; 16]);
}

#[test]
fn a_server_whose_terminal_is_not_in_the_settings() {
    let e = env(&[
        ("HOME", "/home/u"),
        ("XDG_VTNR", "2"),
        ("XDG_SEAT", "seat1"),
        ("WINDOWPATH", "1"),
    ]);
    let pending = shim::setup_xorg(&e, None, FDS).unwrap_or_else(|_| panic!("no server"));
    assert_eq!(
        args(&pending.xorg_command),
        [
            "-auth", "/proc/self/fd/3", "-nolisten", "tcp", "-background", "none", "-noreset",
            "-keeptty", "-verbose", "3", "-logfile", "/dev/null", "-displayfd", "4",
        ]
    );
    assert!(pending.window_path.is_none());
}

#[test]
fn settings_come_with_an_environment_of_their_own() {
    let current = env(&[("HOME", "/home/u"), ("XDG_SEAT", "seat1")]);
    let own = || env(&[("HOME", "/root"), ("XDG_VTNR", "3")]);
    let mut settings = session::Settings::default();
    settings.env = Some(own());
    let made = session::xorg_new(settings, &current, None, FDS)
        .unwrap_or_else(|_| panic!("no server"));
    let client = &made.pending_session.client_authority_settings;
    assert_eq!(client.xauthority_path.bytes, b"/root/.Xauthority");
    let given = args(&made.xorg_command);
    assert!(given.contains(&"vt3".to_string()));
    assert!(!given.contains(&"seat1".to_string()));
    let mut settings = shim::Settings::default();
    settings.env = Some(own());
    let pending = shim::setup_xorg_with_settings(settings, &current, None, FDS)
        .unwrap_or_else(|_| panic!("no server"));
    assert_eq!(pending.authority_manager.xauthority_path.bytes, b"/root/.Xauthority");
}

#[test]
fn a_server_that_never_answers() {
    let e = env(&[("HOME", "/home/u")]);
    let pending = shim::setup_xorg(&e, None, FDS).unwrap_or_else(|_| panic!("no server"));
    assert!(pending.window_path.is_none());
    assert_eq!(
        pending.finish(receiver(b"")).err(),
        Some(SessionError::Display(DisplayError::Internal))
    );
    let manager = shim::XAuthorityManager::new(true, None, &e, None)
        .unwrap_or_else(|_| panic!("no manager"));
    assert_eq!(manager.xauthority_path.bytes, b"/home/u/.Xauthority");
    assert!(manager.skip_locks);
    let secret = manager.cookie.data();
    assert_eq!(manager.finalize_into_cookie().data(), secret);
    let mut settings = shim::Settings::default();
    settings.xauthority_path = Some(UnixPath::from_text("/"));
    let pending = shim::setup_xorg_with_settings(settings, &e, None, FDS)
        .unwrap_or_else(|_| panic!("no server"));
    assert_eq!(
        pending.finish(receiver(b"0\n")).err(),
        Some(SessionError::Authority(AuthorityError::Lock(LockError::NoFileName)))
    );
}
