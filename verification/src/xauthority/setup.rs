//! Letting the server and its clients know the same secret.
use vstd::prelude::*;

use crate::connect;
use crate::env::container;
use crate::env::container::Env;
use crate::env::container::EnvRaw;
use crate::env::variables::ClientAuthority;
use crate::env::variables::Display;
use crate::env::variables::Home;
use crate::path;
use crate::path::UnixPath;
use crate::runtime_dir;
use crate::runtime_dir::RuntimeDir;
use crate::system;
use crate::text;
use crate::views;
use crate::xauthority::cookie::Cookie;
use crate::xauthority::encoding;
use crate::xauthority::encoding::EncodeError;
use crate::xauthority::encoding::Entry;
use crate::xauthority::encoding::EntryView;
use crate::xauthority::encoding::Family;
use crate::xauthority::encoding::Field;
use crate::xauthority::encoding::Hostname;
use crate::xauthority::encoding::Scope;
use crate::xauthority::file;
use crate::xauthority::file::AuthorityFile;
use crate::xauthority::lock;
use crate::xauthority::lock::LockError;

verus! {

/// Why authority cannot be set up.
#[derive(Clone, Copy, PartialEq, Eq, Structural, Debug)]
pub enum AuthorityError {
    /// The system gives no randomness.
    Random,
    /// The environment does not say where the client's file is to be.
    NoPath,
    /// The client's file cannot be locked.
    Lock(LockError),
    /// An entry cannot be written.
    Encode(EncodeError),
}

/// A new cookie. The system is asked for bytes that are good for a secret, and
/// the cookie is made of what it gives, whatever that is.
pub(crate) fn make_cookie() -> (r: Option<Cookie>)
    ensures
        is_drawn(views::viewed(r)),
{
    let random = system::random::<16>(system::RANDOM_SECURE);
    let r = cookie_from(random);
    assert(views::viewed(r) == cookie_of(random));
    r
}

/// Whether these are the bytes of a cookie that was made by asking the system
/// for bytes that are good for a secret; none where the system gave none.
pub open spec fn is_drawn(cookie: Option<Seq<u8>>) -> bool {
    exists|random: Result<[u8; 16], rustix::io::Errno>|
        system::is_random::<16>(system::RANDOM_SECURE, random) && cookie == #[trigger] cookie_of(
            random,
        )
}

/// The bytes of the cookie that comes of what the system gives when it is asked
/// for random bytes: those bytes, or no cookie where it gives none.
pub open spec fn cookie_of(random: Result<[u8; 16], rustix::io::Errno>) -> Option<Seq<u8>> {
    match random {
        Ok(bytes) => Some(bytes@),
        Err(_) => None,
    }
}

/// The cookie that comes of what the system gives when it is asked for random
/// bytes.
pub fn cookie_from(random: Result<[u8; 16], rustix::io::Errno>) -> (r: Option<Cookie>)
    ensures
        views::viewed(r) == cookie_of(random),
{
    match random {
        Ok(bytes) => Some(Cookie::new(bytes)),
        Err(_) => None,
    }
}

/// The name of this host.
pub(crate) fn get_hostname() -> (r: Hostname)
    ensures
        system::is_hostname(r@),
        forall|i: int| 0 <= i < r@.len() ==> #[trigger] r@[i] != 0,
{
    system::hostname()
}

// ---------------------------------------------------------------------------
// Where the client's file is
// ---------------------------------------------------------------------------
/// Where an environment wants the client's file: at the path that it names, in
/// the runtime directory if that is secure, or in the home directory.
pub open spec fn xauthority_path<E: EnvRaw>(env: &E, runtime_dir_mode: Option<u32>) -> Option<
    Seq<u8>,
> {
    match container::variable_in::<E, ClientAuthority>(env) {
        Ok(path) => Some(path),
        Err(_) => match runtime_dir::runtime_dir(env, runtime_dir_mode) {
            Ok(dir) => Some(path::joined(dir, text::utf8("Xauthority"@))),
            Err(_) => match container::variable_in::<E, Home>(env) {
                Ok(home) => Some(path::joined(home, text::utf8(".Xauthority"@))),
                Err(_) => None,
            },
        },
    }
}

/// Where an environment wants the client's file. `runtime_dir_mode` is what the
/// system says of the permissions of the runtime directory.
pub fn get_xauthority_path<E: Env>(env: &E, runtime_dir_mode: Option<u32>) -> (r: Result<
    UnixPath,
    AuthorityError,
>)
    requires
        env.well_formed(),
    ensures
        match r {
            Ok(path) => xauthority_path(env, runtime_dir_mode) == Some(path@),
            Err(e) => xauthority_path(env, runtime_dir_mode) is None && e
                == AuthorityError::NoPath,
        },
{
    match env.get::<ClientAuthority>() {
        Ok(authority) => {
            return Ok(authority.path);
        },
        Err(_) => {},
    }
    match RuntimeDir::from_env(env, runtime_dir_mode) {
        Ok(dir) => {
            return Ok(dir.path.join_text("Xauthority"));
        },
        Err(_) => {},
    }
    match env.get::<Home>() {
        Ok(home) => Ok(home.path.join_text(".Xauthority")),
        Err(_) => Err(AuthorityError::NoPath),
    }
}

// ---------------------------------------------------------------------------
// Entries
// ---------------------------------------------------------------------------
/// The entry for connections from anywhere.
pub open spec fn wildcard_entry(cookie: Seq<u8>, slot: u16) -> EntryView {
    EntryView {
        family: Family::Wild,
        address: text::utf8("127.0.0.2"@),
        display: text::utf8(text::digits(slot as nat)),
        name: text::utf8(Cookie::AUTH_NAME@),
        data: cookie,
    }
}

/// The entry for connections from the given host.
pub open spec fn local_entry(cookie: Seq<u8>, hostname: Seq<u8>, slot: u16) -> EntryView {
    EntryView {
        family: Family::Local,
        address: hostname,
        display: text::utf8(text::digits(slot as nat)),
        name: text::utf8(Cookie::AUTH_NAME@),
        data: cookie,
    }
}

/// The entries of a client's file. The wildcard entry is there so that clients
/// do not break when the host changes its name, the local one for applications
/// that may not support wildcards.
pub open spec fn client_entries(cookie: Seq<u8>, hostname: Seq<u8>, display: u16) -> Seq<
    EntryView,
> {
    seq![wildcard_entry(cookie, display), local_entry(cookie, hostname, display)]
}

/// A wildcard entry can always be written, a local one if the host's name is
/// not too long.
pub proof fn lemma_entries_fit(cookie: Cookie, hostname: Seq<u8>, slot: u16)
    ensures
        encoding::overlong(wildcard_entry(cookie@, slot)) is None,
        encoding::overlong(local_entry(cookie@, hostname, slot)) == (if hostname.len() > 0xffff {
            Some(Field::Address)
        } else {
            None
        }),
        encoding::overlong_in(client_entries(cookie@, hostname, slot)) == (if hostname.len()
            > 0xffff {
            Some(Field::Address)
        } else {
            None
        }),
{
    crate::xauthority::cookie::law_cookie_len(cookie);
    text::lemma_digits_short(slot as nat);
    reveal_strlit("127.0.0.2");
    reveal_strlit("MIT-MAGIC-COOKIE-1");
    text::lemma_ascii_len("127.0.0.2"@);
    text::lemma_ascii_len(Cookie::AUTH_NAME@);
    let entries = client_entries(cookie@, hostname, slot);
    reveal_with_fuel(encoding::overlong_in, 3);
    assert(entries.drop_first() =~= seq![local_entry(cookie@, hostname, slot)]);
    assert(entries.drop_first().drop_first() =~= Seq::<EntryView>::empty());
}

/// The contents of the server's file: one entry, for connections from anywhere.
pub fn server_authority(cookie: &Cookie) -> (r: Vec<u8>)
    ensures
        r@ == encoding::encoded(wildcard_entry(cookie@, 0)),
{
    let entry = Entry::builder().cookie(cookie.clone()).scope(Scope::Any).target(0).build();
    proof {
        lemma_entries_fit(*cookie, Seq::empty(), 0);
    }
    entry.encode().unwrap()
}

/// The contents of the server's file for a cookie, if one could be made.
pub fn setup_server_with(cookie: Option<Cookie>) -> (r: Result<
    (Vec<u8>, Cookie),
    AuthorityError,
>)
    ensures
        match r {
            Ok((contents, made)) => {
                &&& views::viewed(cookie) == Some(made@)
                &&& contents@ == encoding::encoded(wildcard_entry(made@, 0))
            },
            Err(e) => cookie is None && e == AuthorityError::Random,
        },
{
    match cookie {
        Some(cookie) => Ok((server_authority(&cookie), cookie)),
        None => Err(AuthorityError::Random),
    }
}

/// A new cookie, and the contents of the file by which the server knows it.
pub fn setup_server() -> (r: Result<(Vec<u8>, Cookie), AuthorityError>)
    ensures
        match r {
            Ok((contents, cookie)) => {
                &&& is_drawn(Some(cookie@))
                &&& contents@ == encoding::encoded(wildcard_entry(cookie@, 0))
            },
            Err(e) => is_drawn(None) && e == AuthorityError::Random,
        },
{
    setup_server_with(make_cookie())
}

/// The entries of a client's file.
pub fn make_client_entries(cookie: &Cookie, hostname: &Hostname, display: &Display) -> (r: Vec<
    Entry,
>)
    ensures
        encoding::entry_views(r@) == client_entries(cookie@, hostname@, display@),
{
    let mut authority: Vec<Entry> = Vec::new();
    authority.push(
        Entry::builder().cookie(cookie.clone()).scope(Scope::Any).target(display.number()).build(),
    );
    authority.push(
        Entry::builder().cookie(cookie.clone()).scope(Scope::Local(text::copy(hostname))).target(
            display.number(),
        ).build(),
    );
    assert(encoding::entry_views(authority@) =~= client_entries(cookie@, hostname@, display@));
    authority
}

// ---------------------------------------------------------------------------
// The client's file
// ---------------------------------------------------------------------------
/// How a client's file is to be written.
pub struct ClientAuthoritySettings {
    pub xauthority_path: UnixPath,
    pub hostname: Hostname,
    pub skip_locks: bool,
}

/// Why a client's file cannot be written.
pub open spec fn client_failure(path: Seq<u8>, hostname: Seq<u8>, skip_locks: bool) -> Option<
    AuthorityError,
> {
    if !skip_locks && lock::lock_failure(path) is Some {
        Some(AuthorityError::Lock(lock::lock_failure(path)->0))
    } else if hostname.len() > 0xffff {
        Some(AuthorityError::Encode(EncodeError { field: Field::Address }))
    } else {
        None
    }
}

/// The client's file, and the variable by which clients find it.
pub fn setup_client(settings: ClientAuthoritySettings, cookie: &Cookie, display: &Display) -> (r:
    Result<(ClientAuthority, AuthorityFile), AuthorityError>)
    ensures
        match r {
            Ok((authority, xauth_file)) => {
                &&& client_failure(
                    settings.xauthority_path@,
                    settings.hostname@,
                    settings.skip_locks,
                ) is None
                &&& authority@ == settings.xauthority_path@
                &&& xauth_file.path@ == settings.xauthority_path@
                &&& file::is_locked(xauth_file, !settings.skip_locks)
                &&& !xauth_file.exclusive
                &&& xauth_file.contents@ == encoding::encoded_all(
                    client_entries(cookie@, settings.hostname@, display@),
                )
            },
            Err(e) => client_failure(
                settings.xauthority_path@,
                settings.hostname@,
                settings.skip_locks,
            ) == Some(e),
        },
{
    let authority = make_client_entries(cookie, &settings.hostname, display);
    let path = settings.xauthority_path;
    let mut xauth_file = if settings.skip_locks {
        AuthorityFile::open_or_create_unlocked(&path)
    } else {
        match AuthorityFile::open_or_create(&path) {
            Ok(xauth_file) => xauth_file,
            Err(e) => {
                return Err(AuthorityError::Lock(e));
            },
        }
    };
    proof {
        lemma_entries_fit(*cookie, settings.hostname@, display@);
    }
    match xauth_file.set(&authority) {
        Ok(_) => {
            assert(xauth_file.contents@ =~= encoding::encoded_all(
                client_entries(cookie@, settings.hostname@, display@),
            ));
            Ok((ClientAuthority { path }, xauth_file))
        },
        Err(e) => Err(AuthorityError::Encode(e)),
    }
}

// ---------------------------------------------------------------------------
// Laws
// ---------------------------------------------------------------------------
/// What a client reads is what the server goes by: the server's file and the
/// client's file hold the same cookie, and the client's file holds it both for
/// connections from anywhere and for those from this host.
pub proof fn law_same_secret(cookie: Cookie, hostname: Seq<u8>, display: u16)
    requires
        hostname.len() <= 0xffff,
    ensures
        encoding::decoded_all(encoding::encoded(wildcard_entry(cookie@, 0))) == Some(
            seq![wildcard_entry(cookie@, 0)],
        ),
        encoding::decoded_all(encoding::encoded_all(client_entries(cookie@, hostname, display)))
            == Some(
            seq![wildcard_entry(cookie@, display), local_entry(cookie@, hostname, display)],
        ),
        wildcard_entry(cookie@, 0).data == cookie@,
        wildcard_entry(cookie@, display).data == cookie@,
        local_entry(cookie@, hostname, display).data == cookie@,
{
    lemma_entries_fit(cookie, hostname, 0);
    lemma_entries_fit(cookie, hostname, display);
    encoding::law_file_round_trip(client_entries(cookie@, hostname, display));
    let one = seq![wildcard_entry(cookie@, 0)];
    reveal_with_fuel(encoding::overlong_in, 2);
    reveal_with_fuel(encoding::encoded_all, 2);
    assert(one.drop_first() =~= Seq::<EntryView>::empty());
    encoding::law_file_round_trip(one);
    assert(encoding::encoded_all(one) =~= encoding::encoded(wildcard_entry(cookie@, 0)));
}

/// A client's file stays good when the host changes its name: the entry for
/// connections from anywhere is the same whatever the name is.
pub proof fn law_hostname_change(cookie: Cookie, before: Seq<u8>, after: Seq<u8>, display: u16)
    requires
        before.len() <= 0xffff,
        after.len() <= 0xffff,
    ensures
        ({
            let old_file = encoding::decoded_all(
                encoding::encoded_all(client_entries(cookie@, before, display)),
            );
            let new_file = encoding::decoded_all(
                encoding::encoded_all(client_entries(cookie@, after, display)),
            );
            &&& old_file is Some
            &&& new_file is Some
            &&& old_file->0[0] == new_file->0[0]
            &&& old_file->0[0].family == Family::Wild
            &&& old_file->0[0].data == cookie@
        }),
{
    law_same_secret(cookie, before, display);
    law_same_secret(cookie, after, display);
}

/// Clients can authenticate: the server's file holds one entry and the client's
/// file two, and each of them holds the cookie behind the name of the method that
/// X servers and clients know, which is also the name that a connection offers.
/// The server goes by its entry wherever a connection comes from; of the client's,
/// the first is for connections from anywhere and the second for those from the
/// given host, both under the number of the display.
pub proof fn law_clients_authenticate(cookie: Cookie, hostname: Seq<u8>, display: u16)
    requires
        hostname.len() <= 0xffff,
    ensures
        ({
            let method = seq![
                0x4du8, 0x49u8, 0x54u8, 0x2du8, 0x4du8, 0x41u8, 0x47u8, 0x49u8, 0x43u8,
                0x2du8, 0x43u8, 0x4fu8, 0x4fu8, 0x4bu8, 0x49u8, 0x45u8, 0x2du8, 0x31u8,
            ];
            let anywhere = seq![
                0x31u8, 0x32u8, 0x37u8, 0x2eu8, 0x30u8, 0x2eu8, 0x30u8, 0x2eu8, 0x32u8,
            ];
            let server = encoding::decoded_all(encoding::encoded(wildcard_entry(cookie@, 0)));
            let client = encoding::decoded_all(
                encoding::encoded_all(client_entries(cookie@, hostname, display)),
            );
            &&& server matches Some(entries) && {
                &&& entries.len() == 1
                &&& entries[0].family == Family::Wild
                &&& entries[0].address == anywhere
                &&& entries[0].display == seq![0x30u8]
                &&& entries[0].name == method
                &&& entries[0].data == cookie@
            }
            &&& client matches Some(entries) && {
                &&& entries.len() == 2
                &&& entries[0].family == Family::Wild
                &&& entries[0].address == anywhere
                &&& entries[1].family == Family::Local
                &&& entries[1].address == hostname
                &&& forall|i: int|
                    0 <= i < 2 ==> {
                        &&& (#[trigger] entries[i]).name == method
                        &&& entries[i].data == cookie@
                        &&& text::decoded(entries[i].display) matches Some(number)
                            && text::unsigned_value(number, u16::MAX as nat) == Some(
                            display as nat,
                        )
                    }
            }
            &&& forall|i: int|
                0 <= i < connect::local_attempts(display, cookie@).len() ==> {
                    &&& (#[trigger] connect::local_attempts(display, cookie@)[i]).auth_name
                        == method
                    &&& connect::local_attempts(display, cookie@)[i].auth_data == cookie@
                }
            &&& connect::local_attempts(display, cookie@).len() == 2
        }),
{
    law_same_secret(cookie, hostname, display);
    reveal_strlit("MIT-MAGIC-COOKIE-1");
    reveal_strlit("127.0.0.2");
    text::lemma_ascii_bytes("MIT-MAGIC-COOKIE-1"@);
    text::lemma_ascii_bytes("127.0.0.2"@);
    let method = seq![
        0x4du8, 0x49u8, 0x54u8, 0x2du8, 0x4du8, 0x41u8, 0x47u8, 0x49u8, 0x43u8, 0x2du8, 0x43u8,
        0x4fu8, 0x4fu8, 0x4bu8, 0x49u8, 0x45u8, 0x2du8, 0x31u8,
    ];
    let anywhere = seq![
        0x31u8, 0x32u8, 0x37u8, 0x2eu8, 0x30u8, 0x2eu8, 0x30u8, 0x2eu8, 0x32u8,
    ];
    assert(text::utf8(Cookie::AUTH_NAME@) =~= method);
    assert(text::utf8("127.0.0.2"@) =~= anywhere);
    text::lemma_digits_short(0);
    text::lemma_ascii_bytes(text::digits(0));
    assert(text::utf8(text::digits(0)) =~= seq![0x30u8]);
    text::law_utf8_round_trip(text::digits(display as nat));
    text::law_unsigned_round_trip(display as nat, u16::MAX as nat);
}

/// The path that the environment names for the client's file is taken whatever
/// else there is. Where it names none, the file is in the runtime directory if that
/// is secure, whether or not there is a home directory, and otherwise in the home
/// directory. There is no path only where none of the three is there.
pub proof fn law_xauthority_path<E: EnvRaw>(env: &E, mode: Option<u32>)
    ensures
        ({
            let named = env.lookup("XAUTHORITY"@);
            let dir = env.lookup("XDG_RUNTIME_DIR"@);
            let home = env.lookup("HOME"@);
            let secure = dir is Some && mode is Some && mode->0 % 64 == 0;
            let path = xauthority_path(env, mode);
            &&& named is Some ==> path == named
            &&& named is None && secure ==> path is Some && path::file_name_of(path->0) == Some(
                seq![
                    0x58u8, 0x61u8, 0x75u8, 0x74u8, 0x68u8, 0x6fu8, 0x72u8, 0x69u8, 0x74u8,
                    0x79u8,
                ],
            ) && dir->0.is_prefix_of(path->0) && path->0.len() <= dir->0.len() + 11
            &&& named is None && !secure && home is Some ==> path is Some && path::file_name_of(
                path->0,
            ) == Some(
                seq![
                    0x2eu8, 0x58u8, 0x61u8, 0x75u8, 0x74u8, 0x68u8, 0x6fu8, 0x72u8, 0x69u8,
                    0x74u8, 0x79u8,
                ],
            ) && home->0.is_prefix_of(path->0) && path->0.len() <= home->0.len() + 12
            &&& path is None <==> named is None && !secure && home is None
        }),
{
    runtime_dir::law_secure_directory(env, mode);
    reveal_strlit("Xauthority");
    reveal_strlit(".Xauthority");
    text::lemma_ascii_bytes("Xauthority"@);
    text::lemma_ascii_bytes(".Xauthority"@);
    let shown = text::utf8("Xauthority"@);
    let hidden = text::utf8(".Xauthority"@);
    assert(shown =~= seq![
        0x58u8, 0x61u8, 0x75u8, 0x74u8, 0x68u8, 0x6fu8, 0x72u8, 0x69u8, 0x74u8, 0x79u8,
    ]);
    assert(hidden =~= seq![
        0x2eu8, 0x58u8, 0x61u8, 0x75u8, 0x74u8, 0x68u8, 0x6fu8, 0x72u8, 0x69u8, 0x74u8, 0x79u8,
    ]);
    if env.lookup("XDG_RUNTIME_DIR"@) is Some {
        let dir = env.lookup("XDG_RUNTIME_DIR"@)->0;
        path::law_join_file_name(dir, shown);
        path::law_join_relative(dir, shown);
        assert(path::joined(dir, shown).subrange(0, dir.len() as int) =~= dir);
    }
    if env.lookup("HOME"@) is Some {
        let home = env.lookup("HOME"@)->0;
        path::law_join_file_name(home, hidden);
        path::law_join_relative(home, hidden);
        assert(path::joined(home, hidden).subrange(0, home.len() as int) =~= home);
    }
}

/// A client's file can be written exactly where it can be locked or need not be,
/// and the name of the host fits.
pub proof fn law_client_failure(path: Seq<u8>, hostname: Seq<u8>, skip_locks: bool)
    ensures
        ({
            let name = path::file_name_of(path);
            let lockable = name is Some && text::decoded(name->0) is Some;
            let failure = client_failure(path, hostname, skip_locks);
            &&& failure is None <==> (skip_locks || lockable) && hostname.len() < 65536
            &&& !skip_locks && name is None ==> failure == Some(
                AuthorityError::Lock(LockError::NoFileName),
            )
            &&& !skip_locks && name is Some && !lockable ==> failure == Some(
                AuthorityError::Lock(LockError::FileNameNotText),
            )
            &&& (skip_locks || lockable) && hostname.len() >= 65536 ==> failure == Some(
                AuthorityError::Encode(EncodeError { field: Field::Address }),
            )
        }),
{
}

/// The cookie is made of the bytes that the system gives, all sixteen of them in
/// their order, and there is none where the system gives none.
pub proof fn law_cookie_is_drawn(random: Result<[u8; 16], rustix::io::Errno>)
    ensures
        random is Err <==> cookie_of(random) is None,
        random matches Ok(bytes) ==> cookie_of(random) is Some && cookie_of(random)->0.len() == 16
            && forall|i: int| 0 <= i < 16 ==> #[trigger] cookie_of(random)->0[i] == bytes[i],
{
}

} // verus!
