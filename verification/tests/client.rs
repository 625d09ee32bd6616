use xshim::client::{
    apply_session, user_xinitrc, DesktopNames, DirectMode, NoClient, SessionEntry, SessionMode,
    XinitCompatMode, XinitFiles,
};
use xshim::command::CommandLine;
use xshim::env::container::{EnvBuf, EnvRaw};
use xshim::env::diff;
use xshim::env::diff::Entry;
use xshim::env::parse::EnvError;
use xshim::env::system::OsVariable;
use xshim::env::variables::{ClientAuthority, Display, VtNumber, WindowPath};
use xshim::path::UnixPath;
use xshim::strategy::{asks_manager, env_path_merge, resolve_env, Strategy};
use xshim::systemd::environment::SystemdEnvironment;
use xshim::warn::{WarnExt, Warning};

fn path(s: &str) -> UnixPath {
    UnixPath::from_text(s)
}

fn env(pairs: &[(&str, &str)]) -> EnvBuf {
    EnvBuf::from_values(
        pairs.iter().map(|(k, v)| (k.to_string(), v.as_bytes().to_vec())).collect(),
    )
}

fn system(pairs: &[(&str, &str)]) -> Vec<OsVariable> {
    pairs
        .iter()
        .map(|(k, v)| OsVariable { key: k.as_bytes().to_vec(), value: v.as_bytes().to_vec() })
        .collect()
}

fn assign(key: &str, value: &str) -> Entry {
    Entry::Assign { key: key.to_string(), value: value.as_bytes().to_vec() }
}

fn line(command: &CommandLine) -> Vec<String> {
    let mut r = vec![String::from_utf8(command.program.bytes.clone()).unwrap()];
    r.extend(command.args.iter().map(|a| String::from_utf8(a.clone()).unwrap()));
    r
}

fn changes(command: &CommandLine) -> Vec<String> {
    diff::to_vec(&command.env).into_iter().map(|b| String::from_utf8(b).unwrap()).collect()
}

fn managed(pairs: &[&str]) -> SystemdEnvironment {
    let mut warnings = Vec::new();
    SystemdEnvironment::open(&pairs.iter().map(|p| p.to_string()).collect(), &mut warnings)
}

#[test]
fn warnings_are_collected() {
    let mut warnings: Vec<u8> = vec![1];
    let ok: Result<&str, u8> = Ok("fine");
    assert_eq!(ok.warn(&mut warnings), Some("fine"));
    let bad: Result<&str, u8> = Err(2);
    assert_eq!(bad.warn(&mut warnings), None);
    assert_eq!(warnings, [1, 2]);
}

#[test]
fn texts_of_warnings() {
    let no_seat = Warning::NoSeat(EnvError::Missing);
    assert_eq!(no_seat.message(), "Cannot find a seat for the current session");
    assert_eq!(no_seat.cause(), Some(EnvError::Missing));
    assert_eq!(Warning::NoXinitRc.cause(), None);
    assert_eq!(
        Warning::NoXinitRc.message(),
        "Cannot find xinit RC, using xterm as fallback client"
    );
    assert_eq!(
        Warning::NoDesktopNames.message(),
        "The session's definition does not provide XDG desktop name(s)"
    );
    assert_eq!(
        Warning::NotAnEntry("x".to_string()).message(),
        "Skipping x: not a valid env entry"
    );
    assert_eq!(
        Warning::NotText("KEY".to_string()).message(),
        "\"Skipping passing variable KEY to systemd: could not convert to string\""
    );
    assert_eq!(
        Warning::NotText("a\"\n\\".to_string()).message(),
        "\"Skipping passing variable a\\\"\\n\\\\ to systemd: could not convert to string\""
    );
}

#[test]
fn a_client_that_is_named() {
    assert_eq!(line(&DirectMode { executable: path("/usr/bin/i3") }.run()), ["/usr/bin/i3"]);
}

#[test]
fn scripts_that_are_chosen() {
    let files = |home: Option<&str>, user_exists, system_exists| XinitFiles {
        home: home.map(path),
        user_exists,
        system_exists,
    };
    let mode = XinitCompatMode {};
    let named = env(&[("XINITRC", "/tmp/rc")]);
    let none = env(&[]);
    let script = |e: &EnvBuf, f| mode.script(e, f).map(|p| String::from_utf8(p.bytes).unwrap());
    assert_eq!(script(&named, files(None, false, false)), Some("/tmp/rc".to_string()));
    assert_eq!(script(&named, files(Some("/home/u"), true, true)), Some("/tmp/rc".to_string()));
    assert_eq!(
        script(&none, files(Some("/home/u"), true, true)),
        Some("/home/u/.xinitrc".to_string())
    );
    assert_eq!(
        script(&none, files(Some("/home/u"), false, true)),
        Some("/etc/X11/xinit/xinitrc".to_string())
    );
    assert_eq!(
        script(&none, files(None, true, true)),
        Some("/etc/X11/xinit/xinitrc".to_string())
    );
    assert_eq!(script(&none, files(None, true, false)), None);
    assert_eq!(user_xinitrc(&path("/root")).bytes, b"/root/.xinitrc");
}

#[test]
fn scripts_that_are_run() {
    let run = |script: Option<&str>, mode, warnings: &mut Vec<Warning>| {
        XinitCompatMode {}.run(script.map(path), mode, warnings).map(|c| line(&c))
    };
    let mut warnings = Vec::new();
    assert_eq!(run(Some("/rc"), Some(0o100755), &mut warnings), Ok(vec!["/rc".to_string()]));
    assert_eq!(run(Some("/rc"), Some(0o001), &mut warnings), Ok(vec!["/rc".to_string()]));
    assert_eq!(
        run(Some("/rc"), Some(0o100644), &mut warnings),
        Ok(vec!["/bin/sh".to_string(), "/rc".to_string()])
    );
    assert_eq!(run(Some("/rc"), None, &mut warnings), Err(NoClient));
    assert!(warnings.is_empty());
    assert_eq!(
        run(None, None, &mut warnings),
        Ok(["xterm", "-geometry", "+1+1", "-n", "login"].map(String::from).to_vec())
    );
    assert!(matches!(warnings.as_slice(), [Warning::NoXinitRc]));
}

#[test]
fn scripts_that_know_their_window() {
    let mut warnings = Vec::new();
    let e = env(&[("WINDOWPATH", "1")]);
    let vt = VtNumber { number: 7 };
    let client = XinitCompatMode {}
        .run_ext(Some(path("/rc")), Some(0o755), Some(&vt), &e, &mut warnings)
        .unwrap_or_else(|_| panic!("there is a script"));
    assert_eq!(line(&client), ["/rc"]);
    assert_eq!(changes(&client), ["WINDOWPATH=1:7"]);
    let client = XinitCompatMode {}
        .run_ext::<_, VtNumber>(None, None, None, &e, &mut warnings)
        .unwrap_or_else(|_| panic!("there is a terminal"));
    assert!(client.env.is_empty());
    assert_eq!(warnings.len(), 1);
    let failed = XinitCompatMode {}.run_ext(Some(path("/rc")), None, Some(&vt), &e, &mut warnings);
    assert_eq!(failed.err(), Some(NoClient));
}

#[test]
fn sessions_that_are_defined() {
    let mut warnings = Vec::new();
    let client = SessionMode { name: "i3".to_string() }.run(
        SessionEntry {
            executable: path("/usr/bin/i3"),
            working_directory: Some(path("/home/u")),
            desktop_names: Some(DesktopNames {
                single: Some(vec![assign("XDG_SESSION_DESKTOP", "i3")]),
                list: vec![assign("XDG_CURRENT_DESKTOP", "i3")],
            }),
        },
        &mut warnings,
    );
    assert_eq!(line(&client), ["/usr/bin/i3"]);
    assert_eq!(client.current_dir.as_ref().map(|d| d.bytes.clone()), Some(b"/home/u".to_vec()));
    assert_eq!(changes(&client), ["XDG_SESSION_DESKTOP=i3", "XDG_CURRENT_DESKTOP=i3"]);
    assert!(warnings.is_empty());
    let client = SessionMode { name: "i3".to_string() }.run(
        SessionEntry {
            executable: path("/usr/bin/i3"),
            working_directory: None,
            desktop_names: None,
        },
        &mut warnings,
    );
    assert!(client.current_dir.is_none() && client.env.is_empty());
    assert!(matches!(warnings.as_slice(), [Warning::NoDesktopNames]));
}

#[test]
fn what_every_client_finds() {
    let mut client = CommandLine::new(path("/usr/bin/i3"));
    apply_session::<Display, VtNumber>(
        &mut client,
        Display::from_number(1),
        ClientAuthority { path: path("/x") },
        Some(WindowPath { name: "2".to_string() }),
        None,
    );
    assert_eq!(
        changes(&client),
        ["DISPLAY=1", "XAUTHORITY=/x", "WINDOWPATH=2", "XDG_VTNR", "XDG_SEAT"]
    );
    let mut inherited = env(&[("XDG_VTNR", "7"), ("XDG_SEAT", "seat0"), ("DISPLAY", "9")]);
    inherited.apply(&client.env);
    assert_eq!(inherited.raw_get("DISPLAY"), Some(b"1".to_vec()));
    assert_eq!(inherited.raw_get("XAUTHORITY"), Some(b"/x".to_vec()));
    assert_eq!(inherited.raw_get("XDG_VTNR"), None);
    assert_eq!(inherited.raw_get("XDG_SEAT"), None);

    let mut client = CommandLine::new(path("/usr/bin/i3"));
    apply_session::<Display, VtNumber>(
        &mut client,
        Display::from_number(1),
        ClientAuthority { path: path("/x") },
        None,
        Some(env(&[("XDG_SESSION_TYPE", "x11")])),
    );
    assert_eq!(
        changes(&client),
        ["DISPLAY=1", "XAUTHORITY=/x", "XDG_VTNR", "XDG_SEAT", "XDG_SESSION_TYPE=x11"]
    );
}

#[test]
fn strategies() {
    assert!(!asks_manager(Some(Strategy::Unix)));
    assert!(asks_manager(Some(Strategy::Merge)));
    assert!(asks_manager(None));
    assert_eq!(Strategy::default(), Strategy::Systemd);
    let unix = || system(&[("PATH", "/bin:/opt"), ("A", "unix"), ("B", "unix")]);
    let manager = || managed(&["PATH=/usr/bin:/bin", "A=systemd", "C=systemd"]);

    let e = resolve_env(Some(Strategy::Unix), unix(), None);
    assert_eq!(e.raw_get("A"), Some(b"unix".to_vec()));
    assert_eq!(e.raw_get("C"), None);
    assert_eq!(e.raw_get("PATH"), Some(b"/bin:/opt".to_vec()));

    let e = resolve_env(None, unix(), Some(manager()));
    assert_eq!(e.raw_get("A"), Some(b"systemd".to_vec()));
    assert_eq!(e.raw_get("B"), None);
    assert_eq!(e.raw_get("PATH"), Some(b"/usr/bin:/bin:/opt".to_vec()));

    let e = resolve_env(Some(Strategy::Merge), unix(), Some(manager()));
    assert_eq!(e.raw_get("A"), Some(b"unix".to_vec()));
    assert_eq!(e.raw_get("B"), Some(b"unix".to_vec()));
    assert_eq!(e.raw_get("C"), Some(b"systemd".to_vec()));
    assert_eq!(e.raw_get("PATH"), Some(b"/bin:/opt".to_vec()));
}

#[test]
fn directories_of_one_side() {
    let some = env(&[("PATH", "/bin:/bin")]);
    let none = env(&[]);
    let merged = |a: &EnvBuf, b: &EnvBuf| env_path_merge(a, b).map(|p| p.directories);
    assert_eq!(merged(&some, &none), Some(vec!["/bin".to_string(), "/bin".to_string()]));
    assert_eq!(merged(&none, &some), Some(vec!["/bin".to_string(), "/bin".to_string()]));
    assert_eq!(merged(&some, &some), Some(vec!["/bin".to_string()]));
    assert_eq!(merged(&none, &none), None);
    let e = resolve_env(Some(Strategy::Systemd), system(&[]), Some(managed(&["A=1"])));
    assert_eq!(e.raw_get("PATH"), None);
}
