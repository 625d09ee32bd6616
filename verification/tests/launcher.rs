use xshim::context::{aqquire, ContextMode, NoName, NoTerminal, SessionContext};
use xshim::display::DisplayError;
use xshim::env::container::{EnvBuf, EnvRaw};
use xshim::env::parse::{EnvError, EnvironmentParse, ParseFailure};
use xshim::env::system::OsVariable;
use xshim::env::variables;
use xshim::env::variables::Seat;
use xshim::fd::remap::FdMapping;
use xshim::launcher;
use xshim::launcher::authority::XAuthorityManager;
use xshim::launcher::env_definitions::{Display, DisplayParseError, VtNumber};
use xshim::path::UnixPath;
use xshim::runtime_dir::{RuntimeDir, RuntimeDirManager};
use xshim::warn::Warning;
use xshim::xauthority::cookie::Cookie;
use xshim::xauthority::encoding::{EncodeError, Entry, Family, Field};
use xshim::xauthority::setup::AuthorityError;

fn env(pairs: &[(&str, &str)]) -> EnvBuf {
    EnvBuf::from_values(
        pairs.iter().map(|(k, v)| (k.to_string(), v.as_bytes().to_vec())).collect(),
    )
}

fn system(pairs: &[(&str, &[u8])]) -> Vec<OsVariable> {
    pairs
        .iter()
        .map(|(k, v)| OsVariable { key: k.as_bytes().to_vec(), value: v.to_vec() })
        .collect()
}

fn messages(warnings: &[Warning]) -> Vec<String> {
    warnings.iter().map(|w| w.message()).collect()
}

fn manager(hostname: usize, skip_locks: bool) -> XAuthorityManager {
    XAuthorityManager::new_with(
        RuntimeDir { path: UnixPath::from_text("/run/user/1/xshim-1") },
        skip_locks,
        vec![b'h'; hostname],
        Some(Cookie::new([5; 16])),
    )
    .unwrap_or_else(|_| panic!("there is a cookie"))
}

#[test]
fn names_of_small_displays() {
    assert_eq!(Display::from_name(":0").map(|d| d.number()), Ok(0));
    assert_eq!(Display::from_name(":255").map(|d| d.number()), Ok(255));
    assert_eq!(Display::from_name(":256").map(|d| d.number()), Err(DisplayParseError));
    assert_eq!(Display::from_name("1").map(|d| d.number()), Err(DisplayParseError));
    assert_eq!(DisplayParseError.message(), "Display is an invalid value");
    assert_eq!(Display::from_number(12).env_serialize(), b":12");
    assert_eq!(Display::env_deserialize(b":12".to_vec()).map(|d| d.number()), Ok(12));
    assert_eq!(
        Display::env_deserialize(b":x".to_vec()).map(|d| d.number()),
        Err(ParseFailure::Malformed)
    );
    assert_eq!(
        Display::env_deserialize(vec![0xff]).map(|d| d.number()),
        Err(ParseFailure::InvalidEncoding)
    );
}

#[test]
fn numbers_of_small_terminals() {
    assert_eq!(VtNumber { number: 200 }.env_serialize(), b"200");
    assert_eq!(VtNumber::env_deserialize(b"200".to_vec()).map(|v| v.number), Ok(200));
    assert_eq!(
        VtNumber::env_deserialize(b"256".to_vec()).map(|v| v.number),
        Err(ParseFailure::Malformed)
    );
}

#[test]
fn small_displays_that_are_received() {
    let wait = |line: &[u8]| {
        launcher::DisplayReceiver { line: line.to_vec() }.blocking_wait().map(|d| d.number())
    };
    assert_eq!(wait(b"255\n"), Ok(255));
    assert_eq!(wait(b"256\n"), Err(DisplayError::Invalid));
    assert_eq!(wait(b""), Err(DisplayError::Internal));
}

#[test]
fn names_of_sessions() {
    let context = |seat: Option<&str>, vt: Option<u8>| SessionContext {
        seat: seat.map(|name| Seat { name: name.to_string() }),
        vt_number: vt.map(|number| VtNumber { number }),
        env_diff: None,
    };
    assert_eq!(context(Some("seat0"), Some(7)).unique_id(), Ok("seat0-7".to_string()));
    assert_eq!(context(Some("seat0"), None).unique_id(), Ok("seat0".to_string()));
    assert_eq!(context(None, Some(7)).unique_id(), Ok("7".to_string()));
    assert_ne!(
        context(Some("seat0"), Some(1)).unique_id(),
        context(Some("seat0"), Some(11)).unique_id()
    );
    let random = context(None, None).unique_id().unwrap();
    assert!(random.parse::<u32>().is_ok());
    assert_eq!(context(None, None).unique_id_with(Ok(42)), Ok("42".to_string()));
    assert_eq!(context(None, None).unique_id_with(Err(NoName)), Err(NoName));
    assert_eq!(context(None, Some(3)).unique_id_with(Err(NoName)), Ok("3".to_string()));
}

#[test]
fn random_names_differ() {
    let context: SessionContext<VtNumber> =
        SessionContext { seat: None, vt_number: None, env_diff: None };
    let names: Vec<String> = (0..4).map(|_| context.unique_id().unwrap()).collect();
    assert!(names.iter().any(|n| *n != names[0]));
}

#[test]
fn directories_of_sessions() {
    let e = env(&[("XDG_RUNTIME_DIR", "/run/user/1")]);
    let manager =
        RuntimeDirManager::from_env(&e, Some(0o700)).unwrap_or_else(|_| panic!("it is secure"));
    assert_eq!(
        launcher::session_dir(&manager, "seat0-7").path.bytes,
        b"/run/user/1/xshim-seat0-7"
    );
}

#[test]
fn a_server_for_a_session() {
    let context = SessionContext {
        seat: Some(Seat { name: "seat0".to_string() }),
        vt_number: Some(VtNumber { number: 7 }),
        env_diff: None,
    };
    let (command, fds) = launcher::spawn_server(
        UnixPath::from_text("/usr/lib/Xorg"),
        &vec!["-dpi".to_string()],
        UnixPath::from_text("/run/x/server-authority"),
        context,
        9,
    );
    let args: Vec<String> =
        command.args.iter().map(|a| String::from_utf8(a.clone()).unwrap()).collect();
    assert_eq!(
        args,
        [
            "-seat", "seat0", "vt7", "-novtswitch", "-auth", "/run/x/server-authority",
            "-nolisten", "tcp", "-background", "none", "-noreset", "-keeptty", "-verbose", "3",
            "-logfile", "/dev/null", "-dpi", "-displayfd", "3",
        ]
    );
    assert_eq!(fds.mappings, [FdMapping { parent_fd: 9, child_fd: 3 }]);
}

#[test]
fn authority_in_the_session_directory() {
    let m = manager(4, false);
    let (path, file) = m.setup_server();
    assert_eq!(path.bytes, b"/run/user/1/xshim-1/server-authority");
    assert!(file.exclusive && file.lock.is_some());
    let (server, _) =
        Entry::decode(&file.contents, 0).unwrap_or_else(|_| panic!("there is an entry"));
    assert_eq!(server.family, Family::Wild);
    assert_eq!(server.address, [127, 0, 0, 2]);
    assert_eq!(server.display, [0]);
    assert_eq!(server.data, [5; 16]);
    let (authority, file) =
        m.setup_client(&Display::from_number(3)).unwrap_or_else(|_| panic!("it fits"));
    assert_eq!(authority.path.bytes, b"/run/user/1/xshim-1/client-authority");
    let (any, next) =
        Entry::decode(&file.contents, 0).unwrap_or_else(|_| panic!("there is an entry"));
    let (local, end) =
        Entry::decode(&file.contents, next).unwrap_or_else(|_| panic!("there is an entry"));
    assert_eq!(end, file.contents.len());
    assert_eq!(any.display, [3]);
    assert_eq!(local.address, b"hhhh");
    assert_eq!(local.data, [5; 16]);
    assert_eq!(m.finish().path.bytes, b"/run/user/1/xshim-1");
}

#[test]
fn authority_that_cannot_be_had() {
    assert_eq!(
        manager(0x10000, true).setup_client(&Display::from_number(0)).err(),
        Some(AuthorityError::Encode(EncodeError { field: Field::Address }))
    );
    assert!(manager(1, true).setup_server().1.lock.is_none());
    let failed = XAuthorityManager::new_with(
        RuntimeDir { path: UnixPath::from_text("/run") },
        false,
        Vec::new(),
        None,
    );
    assert_eq!(failed.err(), Some(AuthorityError::Random));
    let made =
        XAuthorityManager::new(RuntimeDir { path: UnixPath::from_text("/run") }, false)
            .unwrap_or_else(|_| panic!("no randomness"));
    assert_ne!(made.cookie.data(), [0; 16]);
}

#[test]
fn contexts_that_nothing_is_known_of() {
    let mut warnings = Vec::new();
    let context: SessionContext<VtNumber> =
        aqquire(Some(ContextMode::Nothing), None, system(&[("XDG_VTNR", b"2")]), &mut warnings)
            .unwrap_or_else(|_| panic!("nothing is needed"));
    assert!(context.seat.is_none());
    assert!(context.vt_number.is_none());
    assert!(context.env_diff.is_none());
    assert!(warnings.is_empty());
}

#[test]
fn contexts_of_the_environment() {
    let mut warnings = Vec::new();
    let given = system(&[("XDG_VTNR", b"2"), ("XDG_SEAT", b"seat0"), ("HOME", b"/root")]);
    let context: SessionContext<VtNumber> =
        aqquire(None, None, given, &mut warnings).unwrap_or_else(|_| panic!("there is a terminal"));
    assert_eq!(context.seat.map(|s| s.name), Some("seat0".to_string()));
    assert_eq!(context.vt_number.map(|v| v.number), Some(2));
    let e = context.env_diff.unwrap_or_else(|| panic!("there is an environment"));
    assert_eq!(e.raw_get("XDG_SESSION_TYPE"), Some(b"x11".to_vec()));
    assert_eq!(e.raw_get("HOME"), Some(b"/root".to_vec()));
    assert!(warnings.is_empty());
}

#[test]
fn contexts_with_something_odd() {
    let mut warnings = Vec::new();
    let given = system(&[("XDG_VTNR", b"2"), ("XDG_SESSION_TYPE", b"wayland")]);
    let context: SessionContext<variables::VtNumber> =
        aqquire(Some(ContextMode::Xdg), None, given, &mut warnings)
            .unwrap_or_else(|_| panic!("there is a terminal"));
    assert!(context.seat.is_none());
    let e = context.env_diff.unwrap_or_else(|| panic!("there is an environment"));
    assert_eq!(e.raw_get("XDG_SESSION_TYPE"), Some(b"wayland".to_vec()));
    assert_eq!(warnings[0].cause(), Some(EnvError::Missing));
    assert_eq!(warnings[1].cause(), None);
    assert_eq!(
        messages(&warnings),
        [
            "Cannot find a seat for the current session",
            "XDG_SESSION_TYPE variable is incorrect: expected 'x11', got 'wayland'.
                Logind will register this session as wrong type.
                You should set this variable via your session manager.
                ",
        ]
    );
    let mut warnings = Vec::new();
    let given = system(&[("XDG_VTNR", b"2"), ("XDG_SEAT", b"s"), ("XDG_SESSION_TYPE", b"x11")]);
    let context: Result<SessionContext<VtNumber>, NoTerminal> =
        aqquire(None, None, given, &mut warnings);
    assert!(context.is_ok() && warnings.is_empty());
    let given = system(&[("XDG_VTNR", b"2"), ("XDG_SEAT", b"s"), ("XDG_SESSION_TYPE", b"\xff")]);
    let context: Result<SessionContext<VtNumber>, NoTerminal> =
        aqquire(None, None, given, &mut warnings);
    assert!(context.is_ok());
    assert_eq!(messages(&warnings), ["XDG_SESSION_TYPE variable is not valid UTF-8"]);
    let mut warnings = Vec::new();
    let given = system(&[("XDG_VTNR", b"2"), ("XDG_SEAT", b"\xff"), ("XDG_SESSION_TYPE", b"x11")]);
    let context: Result<SessionContext<VtNumber>, NoTerminal> =
        aqquire(None, None, given, &mut warnings);
    assert!(context.is_ok());
    assert_eq!(messages(&warnings), ["Cannot find a seat for the current session"]);
    assert_eq!(
        warnings[0].cause(),
        Some(EnvError::Parse(ParseFailure::InvalidEncoding))
    );
}

#[test]
fn contexts_without_a_terminal() {
    let mut warnings = Vec::new();
    let failed: Result<SessionContext<VtNumber>, NoTerminal> =
        aqquire(None, None, system(&[("XDG_SEAT", b"seat0")]), &mut warnings);
    assert_eq!(failed.err(), Some(NoTerminal::NotNamed(EnvError::Missing)));
    let failed: Result<SessionContext<VtNumber>, NoTerminal> =
        aqquire(None, None, system(&[("XDG_VTNR", b"300")]), &mut warnings);
    assert_eq!(
        failed.err(),
        Some(NoTerminal::NotNamed(EnvError::Parse(ParseFailure::Malformed)))
    );
    let found: Result<SessionContext<variables::VtNumber>, NoTerminal> =
        aqquire(None, None, system(&[("XDG_VTNR", b"300")]), &mut warnings);
    assert!(found.is_ok());
    assert_eq!(ContextMode::default(), ContextMode::Xdg);
}

#[test]
fn contexts_with_a_terminal_of_their_own() {
    let mut warnings = Vec::new();
    let given = || system(&[("XDG_VTNR", b"2"), ("XDG_SEAT", b"seat0")]);
    let mode = Some(ContextMode::VtAlloc);
    let context: SessionContext<VtNumber> =
        aqquire(mode, Some(VtNumber { number: 8 }), given(), &mut warnings)
            .unwrap_or_else(|_| panic!("there is a terminal"));
    assert_eq!(context.vt_number.map(|v| v.number), Some(8));
    assert!(context.seat.is_none() && context.env_diff.is_none());
    let failed: Result<SessionContext<VtNumber>, NoTerminal> =
        aqquire(mode, None, given(), &mut warnings);
    assert_eq!(failed.err(), Some(NoTerminal::NotAllocated));
    let context: SessionContext<VtNumber> =
        aqquire(None, Some(VtNumber { number: 8 }), given(), &mut warnings)
            .unwrap_or_else(|_| panic!("there is a terminal"));
    assert_eq!(context.vt_number.map(|v| v.number), Some(2));
    assert!(warnings.is_empty());
}
