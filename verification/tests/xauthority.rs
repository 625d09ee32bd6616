use xshim::env::container::EnvBuf;
use xshim::env::variables::Display;
use xshim::path::UnixPath;
use xshim::xauthority::cookie::Cookie;
use xshim::xauthority::encoding::{
    encode_all, DecodeError, EncodeError, Entry, Family, Field, Scope, Target,
};
use xshim::xauthority::file::AuthorityFile;
use xshim::xauthority::lock::{Lock, LockError};
use xshim::xauthority::setup;
use xshim::xauthority::setup::{AuthorityError, ClientAuthoritySettings};

const RANDOM: [u8; 16] = [
    0xb5, 0xb4, 0x90, 0x32, 0x32, 0x76, 0x53, 0x7a, 0x14, 0x36, 0xd7, 0x7e, 0xa3, 0xec, 0xbd, 0x36,
];

fn path(s: &str) -> UnixPath {
    UnixPath::from_text(s)
}

fn env(pairs: &[(&str, &str)]) -> EnvBuf {
    EnvBuf::from_values(
        pairs.iter().map(|(k, v)| (k.to_string(), v.as_bytes().to_vec())).collect(),
    )
}

fn decode_file(bytes: &Vec<u8>) -> Vec<Entry> {
    let mut entries = Vec::new();
    let mut from = 0;
    while from < bytes.len() {
        let (entry, next) = Entry::decode(bytes, from).unwrap_or_else(|_| panic!("no entry"));
        entries.push(entry);
        from = next;
    }
    entries
}

#[test]
fn xauth_output_parity() {
    const XAUTH_OUT: &[u8] = &[
        0x01, 0x00, 0x00, 0x07, 0x64, 0x65, 0x73, 0x6b, 0x74, 0x6f, 0x70, 0x00, 0x01, 0x30,
        0x00, 0x12, 0x4d, 0x49, 0x54, 0x2d, 0x4d, 0x41, 0x47, 0x49, 0x43, 0x2d, 0x43, 0x4f,
        0x4f, 0x4b, 0x49, 0x45, 0x2d, 0x31, 0x00, 0x10, 0xb5, 0xb4, 0x90, 0x32, 0x32, 0x76,
        0x53, 0x7a, 0x14, 0x36, 0xd7, 0x7e, 0xa3, 0xec, 0xbd, 0x36,
    ];

    let cookie = Cookie::new([
        0xb5, 0xb4, 0x90, 0x32, 0x32, 0x76, 0x53, 0x7a, 0x14, 0x36, 0xd7, 0x7e, 0xa3, 0xec,
        0xbd, 0x36,
    ]);

    const HOSTNAME: &str = "desktop";

    let entry =
        Entry::builder().cookie(cookie).target(0).scope(Scope::Local(HOSTNAME.into())).build();

    let bytes = entry.encode().unwrap();

    assert_eq!(bytes.as_slice(), XAUTH_OUT)
}

#[test]
fn parity_bytes_are_read_back() {
    let entry = Entry::builder()
        .cookie(Cookie::new(RANDOM))
        .target(0)
        .scope(Scope::Local(b"desktop".to_vec()))
        .build();
    let mut bytes = entry.encode().unwrap();
    let length = bytes.len();
    assert_eq!(length, 10 + 7 + 1 + 18 + 16);
    bytes.push(0xaa);
    let (read, next) = Entry::decode(&bytes, 0).unwrap_or_else(|_| panic!("no entry"));
    assert_eq!(next, length);
    assert_eq!(read.family, Family::Local);
    assert_eq!(read.address, b"desktop");
    assert_eq!(read.display, b"0");
    assert_eq!(read.name, b"MIT-MAGIC-COOKIE-1");
    assert_eq!(read.data, RANDOM);
    assert_eq!(read.encode().unwrap(), bytes[..length]);
}

#[test]
fn families() {
    for family in
        [Family::Local, Family::Wild, Family::Netname, Family::Krb5Principal, Family::LocalHost]
    {
        assert_eq!(Family::from_code(family.code()), Some(family));
    }
    assert_eq!(Family::Local.code(), 256);
    assert_eq!(Family::Wild.code(), 65535);
    assert_eq!(Family::from_code(0), None);
}

#[test]
fn entries_with_raw_numbers() {
    let entry = Entry::new(&Cookie::new(RANDOM), Scope::Any, Target::Server { slot: 0 });
    assert_eq!(entry.family, Family::Wild);
    assert_eq!(entry.address, [127, 0, 0, 2]);
    assert_eq!(entry.display, [0]);
    assert_eq!(entry.name, b"MIT-MAGIC-COOKIE-1");
    assert_eq!(entry.data, RANDOM);
    let entry = Entry::new(
        &Cookie::new(RANDOM),
        Scope::Local(b"host".to_vec()),
        Target::Client { display_number: 7 },
    );
    assert_eq!(entry.family, Family::Local);
    assert_eq!(entry.address, b"host");
    assert_eq!(entry.display, [7]);
    assert_eq!(u8::from(Target::Client { display_number: 9 }), 9);
}

#[test]
fn entries_with_spelled_numbers() {
    let entry = Entry::builder().scope(Scope::Any).target(10).cookie(Cookie::new(RANDOM)).build();
    assert_eq!(entry.family, Family::Wild);
    assert_eq!(entry.address, b"127.0.0.2");
    assert_eq!(entry.display, b"10");
}

#[test]
fn fields_that_are_too_long() {
    let long = vec![b'x'; 0x10000];
    let fits = vec![b'x'; 0xffff];
    let make = || Entry::new(&Cookie::new(RANDOM), Scope::Any, Target::Server { slot: 0 });
    let mut entry = make();
    entry.address = long.clone();
    assert_eq!(entry.encode().err(), Some(EncodeError { field: Field::Address }));
    let mut entry = make();
    entry.display = long.clone();
    assert_eq!(entry.encode().err(), Some(EncodeError { field: Field::Display }));
    let mut entry = make();
    entry.name = long.clone();
    assert_eq!(entry.encode().err(), Some(EncodeError { field: Field::Name }));
    let mut entry = make();
    entry.data = long.clone();
    assert_eq!(entry.encode().err(), Some(EncodeError { field: Field::Data }));
    let mut entry = make();
    entry.address = fits.clone();
    assert_eq!(entry.encode().unwrap().len(), 10 + 0xffff + 1 + 18 + 16);
    let mut bad = make();
    bad.data = long;
    assert!(encode_all(&vec![make(), bad]).is_err());
    assert_eq!(encode_all(&Vec::new()).unwrap(), Vec::<u8>::new());
}

#[test]
fn files_that_are_cut_off() {
    let bytes = Entry::new(&Cookie::new(RANDOM), Scope::Any, Target::Server { slot: 0 })
        .encode()
        .unwrap();
    for length in 0..bytes.len() {
        let cut = bytes[..length].to_vec();
        assert_eq!(Entry::decode(&cut, 0).err(), Some(DecodeError::UnexpectedEnd));
    }
    let mut unknown = bytes.clone();
    unknown[0] = 0;
    unknown[1] = 0;
    assert_eq!(Entry::decode(&unknown, 0).err(), Some(DecodeError::UnknownFamily(0)));
}

#[test]
fn secrets_are_wiped() {
    let mut cookie = Cookie::new(RANDOM);
    assert_eq!(cookie.data(), RANDOM);
    assert_eq!(cookie.clone().data(), RANDOM);
    assert_eq!(cookie.raw_data(), (b"MIT-MAGIC-COOKIE-1".to_vec(), RANDOM.to_vec()));
    cookie.wipe();
    assert_eq!(cookie.data(), [0; 16]);
    assert_eq!(Cookie::BYTES_LEN, 16);
    let mut entry =
        Entry::new(&Cookie::new(RANDOM), Scope::Any, Target::Client { display_number: 3 });
    entry.wipe();
    assert!(entry.address.is_empty());
    assert!(entry.display.is_empty());
    assert!(entry.name.is_empty());
    assert!(entry.data.is_empty());
}

#[test]
fn locks_lie_beside_the_file() {
    let lock = Lock::aqquire(&path("/home/u/.Xauthority")).unwrap_or_else(|_| panic!("no lock"));
    assert_eq!(lock.creat_path.bytes, b"/home/u/.Xauthority-c");
    assert_eq!(lock.link_path.bytes, b"/home/u/.Xauthority-l");
    assert_eq!(Lock::aqquire(&path("/home/..")).err(), Some(LockError::NoFileName));
    let raw = UnixPath { bytes: vec![b'/', 0xff] };
    assert_eq!(Lock::aqquire(&raw).err(), Some(LockError::FileNameNotText));
}

#[test]
fn authority_files() {
    let file = AuthorityFile::create(&path("/run/a")).unwrap_or_else(|_| panic!("no file"));
    assert!(file.exclusive);
    assert_eq!(file.lock.map(|l| l.creat_path.bytes), Some(b"/run/a-c".to_vec()));
    let file = AuthorityFile::create_unlocked(&path("/run/a"));
    assert!(file.exclusive && file.lock.is_none() && file.contents.is_empty());
    let file = AuthorityFile::open_or_create(&path("/run/a")).unwrap_or_else(|_| panic!("no file"));
    assert!(!file.exclusive && file.lock.is_some());
    let mut file = AuthorityFile::open_or_create_unlocked(&path("/run/a"));
    assert!(!file.exclusive && file.lock.is_none());
    assert_eq!(AuthorityFile::create(&path("/")).err(), Some(LockError::NoFileName));
    assert_eq!(AuthorityFile::open_or_create(&path("/")).err(), Some(LockError::NoFileName));

    let entries =
        vec![Entry::new(&Cookie::new(RANDOM), Scope::Any, Target::Server { slot: 0 })];
    file.set(&entries).unwrap();
    assert_eq!(file.contents, entries[0].encode().unwrap());
    file.set(&entries).unwrap();
    assert_eq!(file.contents.len(), 2 * entries[0].encode().unwrap().len());
    let mut bad = Entry::new(&Cookie::new(RANDOM), Scope::Any, Target::Server { slot: 0 });
    bad.name = vec![0; 0x10000];
    let before = file.contents.clone();
    assert_eq!(file.set(&vec![bad]).err(), Some(EncodeError { field: Field::Name }));
    assert_eq!(file.contents, before);
}

#[test]
fn where_the_client_file_is() {
    let all = env(&[
        ("XAUTHORITY", "/tmp/xauth"),
        ("XDG_RUNTIME_DIR", "/run/user/1000"),
        ("HOME", "/home/u"),
    ]);
    let without = env(&[("XDG_RUNTIME_DIR", "/run/user/1000"), ("HOME", "/home/u")]);
    let home = env(&[("HOME", "/home/u")]);
    let find = |env: &EnvBuf, mode| setup::get_xauthority_path(env, mode).map(|p| p.bytes);
    assert_eq!(find(&all, Some(0o700)), Ok(b"/tmp/xauth".to_vec()));
    assert_eq!(find(&without, Some(0o40700)), Ok(b"/run/user/1000/Xauthority".to_vec()));
    assert_eq!(find(&without, Some(0o40755)), Ok(b"/home/u/.Xauthority".to_vec()));
    assert_eq!(find(&without, None), Ok(b"/home/u/.Xauthority".to_vec()));
    assert_eq!(find(&home, Some(0o700)), Ok(b"/home/u/.Xauthority".to_vec()));
    assert_eq!(find(&env(&[]), Some(0o700)), Err(AuthorityError::NoPath));
}

#[test]
fn server_and_client_share_a_secret() {
    let (contents, cookie) = setup::setup_server().unwrap_or_else(|_| panic!("no randomness"));
    let server = decode_file(&contents);
    assert_eq!(server.len(), 1);
    assert_eq!(server[0].family, Family::Wild);
    assert_eq!(server[0].address, b"127.0.0.2");
    assert_eq!(server[0].display, b"0");
    assert_eq!(server[0].data, cookie.data());
    assert_ne!(cookie.data(), [0; 16]);

    let settings = ClientAuthoritySettings {
        xauthority_path: path("/run/user/1000/Xauthority"),
        hostname: b"desktop".to_vec(),
        skip_locks: false,
    };
    let (authority, file) = setup::setup_client(settings, &cookie, &Display::from_number(12))
        .unwrap_or_else(|_| panic!("no file"));
    assert_eq!(authority.path.bytes, b"/run/user/1000/Xauthority");
    assert_eq!(file.path.bytes, b"/run/user/1000/Xauthority");
    assert!(file.lock.is_some());
    let client = decode_file(&file.contents);
    assert_eq!(client.len(), 2);
    assert_eq!(client[0].family, Family::Wild);
    assert_eq!(client[0].display, b"12");
    assert_eq!(client[1].family, Family::Local);
    assert_eq!(client[1].address, b"desktop");
    assert_eq!(client[1].display, b"12");
    assert_eq!(client[0].data, cookie.data());
    assert_eq!(client[1].data, cookie.data());
}

#[test]
fn cookies_are_random() {
    let (_, a) = setup::setup_server().unwrap_or_else(|_| panic!("no randomness"));
    let (_, b) = setup::setup_server().unwrap_or_else(|_| panic!("no randomness"));
    assert_ne!(a.data(), b.data());
}

#[test]
fn cookies_are_made_of_what_the_system_gives() {
    let made = setup::cookie_from(Ok(RANDOM));
    assert_eq!(made.map(|cookie| cookie.data()), Some(RANDOM.to_vec()));
    assert!(setup::cookie_from(Err(rustix::io::Errno::NOSYS)).is_none());
}

#[test]
fn server_without_a_cookie() {
    let failed = setup::setup_server_with(None);
    assert_eq!(failed.err(), Some(AuthorityError::Random));
    let made = setup::setup_server_with(Some(Cookie::new(RANDOM)));
    assert_eq!(made.unwrap_or_else(|_| panic!("there is a cookie")).1.data(), RANDOM);
}

#[test]
fn client_files_that_cannot_be_written() {
    let settings = |p: &str, hostname: usize, skip_locks| ClientAuthoritySettings {
        xauthority_path: path(p),
        hostname: vec![b'h'; hostname],
        skip_locks,
    };
    let cookie = Cookie::new(RANDOM);
    let display = Display::from_number(0);
    assert_eq!(
        setup::setup_client(settings("/", 1, false), &cookie, &display).err(),
        Some(AuthorityError::Lock(LockError::NoFileName))
    );
    assert_eq!(
        setup::setup_client(settings("/x", 0x10000, false), &cookie, &display).err(),
        Some(AuthorityError::Encode(EncodeError { field: Field::Address }))
    );
    let (_, file) = setup::setup_client(settings("/", 1, true), &cookie, &display)
        .unwrap_or_else(|_| panic!("no lock is needed"));
    assert!(file.lock.is_none());
}
