use xshim::env::container::{Env, EnvBuf, EnvRaw};
use xshim::env::diff;
use xshim::env::diff::{Entry, EnvDiff};
use xshim::env::parse::{EnvError, EnvironmentParse, EnvironmentVariable, ParseFailure};
use xshim::env::system::{EnvOs, OsVariable};
use xshim::env::variables::{
    ClientAuthority, Display, Home, NotifySocket, PathEnv, RuntimeDirEnv, Seat, SessionKind,
    VtNumber, WindowPath, XinitRC,
};
use xshim::runtime_dir::{directory_to_query, RuntimeDir, RuntimeDirError, RuntimeDirManager};

fn assign(key: &str, value: &str) -> Entry {
    Entry::Assign { key: key.to_string(), value: value.as_bytes().to_vec() }
}

fn unset(key: &str) -> Entry {
    Entry::Unset { key: key.to_string() }
}

fn env(pairs: &[(&str, &str)]) -> EnvBuf {
    EnvBuf::from_values(
        pairs.iter().map(|(k, v)| (k.to_string(), v.as_bytes().to_vec())).collect(),
    )
}

fn system(pairs: &[(&str, &[u8])]) -> Vec<OsVariable> {
    pairs
        .iter()
        .map(|(k, v)| OsVariable { key: k.as_bytes().to_vec(), value: v.to_vec() })
        .collect()
}

fn rendered(entries: Vec<Entry>) -> Vec<String> {
    diff::to_vec(&entries).into_iter().map(|b| String::from_utf8(b).unwrap()).collect()
}

#[test]
fn setting_and_getting() {
    let mut e = EnvBuf::new();
    e.set(VtNumber { number: 7 });
    e.set(Display::from_number(3));
    e.set(Seat { name: "seat0".to_string() });
    assert_eq!(e.raw_get("XDG_VTNR"), Some(b"7".to_vec()));
    assert_eq!(e.raw_get("DISPLAY"), Some(b"3".to_vec()));
    assert_eq!(e.get::<VtNumber>().map(|v| v.number), Ok(7));
    assert_eq!(e.get::<Display>().map(|d| d.number()), Ok(3));
    assert_eq!(e.get::<Seat>().map(|s| s.name), Ok("seat0".to_string()));
    e.set(VtNumber { number: 8 });
    assert_eq!(e.get::<VtNumber>().map(|v| v.number), Ok(8));
    e.remove("XDG_VTNR");
    assert_eq!(e.get::<VtNumber>().map(|v| v.number), Err(EnvError::Missing));
    assert_eq!(e.duplicate().raw_get("XDG_SEAT"), Some(b"seat0".to_vec()));
}

#[test]
fn values_that_cannot_be_read() {
    let mut e = env(&[("XDG_VTNR", "seven"), ("DISPLAY", ":3")]);
    e.insert("XDG_SEAT".to_string(), vec![0xff]);
    assert_eq!(
        e.get::<VtNumber>().map(|v| v.number),
        Err(EnvError::Parse(ParseFailure::Malformed))
    );
    assert_eq!(
        e.get::<Display>().map(|d| d.number()),
        Err(EnvError::Parse(ParseFailure::Malformed))
    );
    assert_eq!(
        e.get::<Seat>().map(|s| s.name),
        Err(EnvError::Parse(ParseFailure::InvalidEncoding))
    );
    e.insert("DISPLAY".to_string(), b"65536".to_vec());
    assert!(e.get::<Display>().is_err());
    e.insert("DISPLAY".to_string(), b"65535".to_vec());
    assert_eq!(e.get::<Display>().map(|d| d.number()), Ok(65535));
}

#[test]
fn raw_variables_keep_their_bytes() {
    let raw = vec![b'/', 0xfe, b'x'];
    let mut e = EnvBuf::new();
    for key in ["HOME", "XAUTHORITY", "XINITRC", "NOTIFY_SOCKET", "XDG_RUNTIME_DIR"] {
        e.insert(key.to_string(), raw.clone());
    }
    assert_eq!(e.get::<Home>().map(|v| v.path.bytes), Ok(raw.clone()));
    assert_eq!(e.get::<ClientAuthority>().map(|v| v.path.bytes), Ok(raw.clone()));
    assert_eq!(e.get::<XinitRC>().map(|v| v.path.bytes), Ok(raw.clone()));
    assert_eq!(e.get::<NotifySocket>().map(|v| v.path.bytes), Ok(raw.clone()));
    assert_eq!(e.get::<RuntimeDirEnv>().map(|v| v.path.bytes), Ok(raw));
    assert_eq!(Home::key(), "HOME");
    assert_eq!(SessionKind::key(), "XDG_SESSION_TYPE");
    assert_eq!(SessionKind::x11().env_serialize(), b"x11");
}

#[test]
fn lists_of_directories() {
    let path = PathEnv::env_deserialize(b"/usr/bin:/bin:/usr/bin".to_vec())
        .unwrap_or_else(|_| panic!("this is text"));
    assert_eq!(path.directories, ["/usr/bin", "/bin", "/usr/bin"]);
    let other = PathEnv::env_deserialize(b"/opt/bin:/bin".to_vec())
        .unwrap_or_else(|_| panic!("this is text"));
    let merged = path.add(other);
    assert_eq!(merged.directories, ["/usr/bin", "/bin", "/opt/bin"]);
    assert_eq!(merged.env_serialize(), b"/usr/bin:/bin:/opt/bin");
    let empty = PathEnv::env_deserialize(Vec::new()).unwrap_or_else(|_| panic!("this is text"));
    assert_eq!(empty.directories, [""]);
    assert_eq!(
        PathEnv::env_deserialize(vec![0xff]).err(),
        Some(ParseFailure::InvalidEncoding)
    );
}

#[test]
fn changes_are_made_in_order() {
    let mut e = env(&[("a", "1"), ("b", "2")]);
    e.apply(&vec![assign("a", "3"), unset("b"), assign("c", "4"), assign("a", "5")]);
    assert_eq!(e.raw_get("a"), Some(b"5".to_vec()));
    assert_eq!(e.raw_get("b"), None);
    assert_eq!(e.raw_get("c"), Some(b"4".to_vec()));
    assert_eq!(e.raw_get("d"), None);
    let mut listed = rendered(e.to_env_diff());
    listed.sort();
    assert_eq!(listed, ["a=5", "c=4"]);
    let twice = env(&[("a", "1"), ("a", "2")]);
    assert_eq!(twice.raw_get("a"), Some(b"2".to_vec()));
}

#[test]
fn only_the_last_changes_count() {
    let changes = vec![assign("a", "1"), assign("b", "2"), unset("a"), assign("b", "3"), unset("c")];
    assert_eq!(rendered(diff::settle(&changes)), ["a", "b=3", "c"]);
    let mut all = env(&[("a", "0"), ("c", "0"), ("d", "0")]);
    let mut last = all.duplicate();
    all.apply(&changes);
    last.apply(&diff::settle(&changes));
    for key in ["a", "b", "c", "d"] {
        assert_eq!(all.raw_get(key), last.raw_get(key));
    }
}

#[test]
fn things_that_come_to_changes() {
    assert_eq!(rendered(VtNumber { number: 2 }.to_env_diff()), ["XDG_VTNR=2"]);
    assert_eq!(rendered("foo=bar".to_env_diff()), ["foo=bar"]);
    assert_eq!(
        rendered((Display::from_number(1), "foo=bar").to_env_diff()),
        ["DISPLAY=1", "foo=bar"]
    );
    assert_eq!(rendered(None::<Seat>.to_env_diff()), Vec::<String>::new());
    assert_eq!(
        rendered(Some(Seat { name: "seat1".to_string() }).to_env_diff()),
        ["XDG_SEAT=seat1"]
    );
    assert_eq!(rendered(vec![unset("x")].to_env_diff()), ["x"]);
    let mut e = EnvBuf::new();
    e.raw_merge(("a=1", ("b=2", "a=3")));
    assert_eq!(e.raw_get("a"), Some(b"3".to_vec()));
    assert_eq!(e.raw_get("b"), Some(b"2".to_vec()));
}

#[test]
fn views_are_separate() {
    let pairs: &[(&str, &[u8])] = &[("PATH", b"/bin"), ("HOME", b"/home/u")];
    let mut a = EnvOs::new_view(system(pairs));
    let b = EnvOs::new_view(system(pairs));
    a.raw_merge("foo=bar");
    a.set(Seat { name: "seat0".to_string() });
    assert_eq!(a.raw_get("foo"), Some(b"bar".to_vec()));
    assert_eq!(a.raw_get("XDG_SEAT"), Some(b"seat0".to_vec()));
    assert_eq!(a.raw_get("HOME"), Some(b"/home/u".to_vec()));
    assert_eq!(b.raw_get("foo"), None);
    assert_eq!(b.raw_get("HOME"), Some(b"/home/u".to_vec()));
}

#[test]
fn a_view_overrides_what_was_given() {
    let mut given = system(&[("A", b"1"), ("B", b"2")]);
    given.push(OsVariable { key: vec![0xff], value: b"lost".to_vec() });
    let mut view = EnvOs::new_view(given);
    view.raw_merge("A=3");
    assert_eq!(view.raw_get("A"), Some(b"3".to_vec()));
    let buf = view.into_buf();
    assert_eq!(buf.raw_get("A"), Some(b"3".to_vec()));
    assert_eq!(buf.raw_get("B"), Some(b"2".to_vec()));
    assert_eq!(buf.to_env_diff().len(), 2);
    let mut view = EnvOs::new_view(system(&[("A", b"1")]));
    view.raw_merge("A=3");
    assert_eq!(rendered(view.to_env_diff()), ["A=1", "A=3"]);
}

#[test]
fn paths_of_windows() {
    let e = env(&[("WINDOWPATH", "1:2")]);
    assert_eq!(WindowPath::previous_plus_vt(&e, &VtNumber { number: 3 }).name, "1:2:3");
    assert_eq!(WindowPath::previous_plus_vt(&env(&[]), &VtNumber { number: 3 }).name, "3");
}

#[test]
fn runtime_directories() {
    let e = env(&[("XDG_RUNTIME_DIR", "/run/user/1000")]);
    assert_eq!(directory_to_query(&e).map(|d| d.bytes), Some(b"/run/user/1000".to_vec()));
    assert!(directory_to_query(&env(&[])).is_none());
    let dir = |e: &EnvBuf, mode| RuntimeDir::from_env(e, mode).map(|d| d.path.bytes);
    assert_eq!(dir(&e, Some(0o40700)), Ok(b"/run/user/1000".to_vec()));
    assert_eq!(dir(&e, Some(0o40701)), Err(RuntimeDirError::Insecure(0o40701)));
    assert_eq!(dir(&e, Some(0o40770)), Err(RuntimeDirError::Insecure(0o40770)));
    assert_eq!(dir(&e, None), Err(RuntimeDirError::NoMetadata));
    assert_eq!(dir(&env(&[]), Some(0o700)), Err(RuntimeDirError::NotProvided));
    let manager =
        RuntimeDirManager::from_env(&e, Some(0o700)).unwrap_or_else(|_| panic!("it is secure"));
    assert_eq!(manager.create("xshim-1").path.bytes, b"/run/user/1000/xshim-1");
    assert_eq!(
        RuntimeDirManager::from_env(&e, Some(0o777)).err(),
        Some(RuntimeDirError::Insecure(0o777))
    );
    assert_eq!(RuntimeDirManager::MODE & 0o077, 0);
}
