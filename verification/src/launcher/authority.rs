//! Authority that is kept in the directory of a session.
use vstd::prelude::*;

use crate::env::variables::ClientAuthority;
use crate::files;
use crate::files::Node;
use crate::files::StepView;
use crate::launcher::env_definitions::Display;
use crate::path;
use crate::path::UnixPath;
use crate::runtime_dir::RuntimeDir;
use crate::system;
use crate::text;
use crate::xauthority::cookie;
use crate::xauthority::cookie::Cookie;
use crate::xauthority::encoding;
use crate::xauthority::encoding::EncodeError;
use crate::xauthority::encoding::Entry;
use crate::xauthority::encoding::EntryView;
use crate::xauthority::encoding::Family;
use crate::xauthority::encoding::Field;
use crate::xauthority::encoding::Hostname;
use crate::xauthority::encoding::Scope;
use crate::xauthority::encoding::Target;
use crate::xauthority::file;
use crate::xauthority::file::AuthorityFile;
use crate::xauthority::lock;
use crate::xauthority::lock::LockError;
use crate::xauthority::setup;
use crate::xauthority::setup::AuthorityError;

verus! {

/// The entry for connections from anywhere.
pub open spec fn wildcard_entry(cookie: Seq<u8>, number: u8) -> EntryView {
    EntryView {
        family: Family::Wild,
        address: seq![127u8, 0u8, 0u8, 2u8],
        display: seq![number],
        name: text::utf8(Cookie::AUTH_NAME@),
        data: cookie,
    }
}

/// The entry for connections from the given host.
pub open spec fn local_entry(cookie: Seq<u8>, hostname: Seq<u8>, number: u8) -> EntryView {
    EntryView {
        family: Family::Local,
        address: hostname,
        display: seq![number],
        name: text::utf8(Cookie::AUTH_NAME@),
        data: cookie,
    }
}

/// The entries of the server's file.
pub open spec fn server_entries(cookie: Seq<u8>) -> Seq<EntryView> {
    seq![wildcard_entry(cookie, 0)]
}

/// The entries of the client's file.
pub open spec fn client_entries(cookie: Seq<u8>, hostname: Seq<u8>, number: u8) -> Seq<EntryView> {
    seq![wildcard_entry(cookie, number), local_entry(cookie, hostname, number)]
}

/// What does not fit into the client's file.
pub open spec fn client_failure(hostname: Seq<u8>) -> Option<AuthorityError> {
    if hostname.len() > 0xffff {
        Some(AuthorityError::Encode(EncodeError { field: Field::Address }))
    } else {
        None
    }
}

proof fn lemma_entries_fit(cookie: Cookie, hostname: Seq<u8>, number: u8)
    ensures
        encoding::overlong_in(server_entries(cookie@)) is None,
        encoding::overlong_in(client_entries(cookie@, hostname, number)) == (if hostname.len()
            > 0xffff {
            Some(Field::Address)
        } else {
            None
        }),
{
    cookie::law_cookie_len(cookie);
    reveal_strlit("MIT-MAGIC-COOKIE-1");
    text::lemma_ascii_len(Cookie::AUTH_NAME@);
    reveal_with_fuel(encoding::overlong_in, 3);
    let server = server_entries(cookie@);
    let client = client_entries(cookie@, hostname, number);
    assert(server.drop_first() =~= Seq::<EntryView>::empty());
    assert(client.drop_first() =~= seq![local_entry(cookie@, hostname, number)]);
    assert(client.drop_first().drop_first() =~= Seq::<EntryView>::empty());
}

/// A file with a plain name can be locked.
proof fn lemma_lockable(dir: Seq<u8>, name: Seq<char>)
    requires
        vstd::utf8::is_ascii_chars(name),
        name.len() > 0,
        forall|i: int| 0 <= i < name.len() ==> #[trigger] name[i] != '/',
        name.last() != '.',
    ensures
        lock::lock_failure(path::joined(dir, text::utf8(name))) is None,
{
    let bytes = text::utf8(name);
    vstd::utf8::is_ascii_chars_encode_utf8(name);
    assert forall|i: int| 0 <= i < bytes.len() implies bytes[i] != path::slash() by {
        assert(name[i] != '/');
    }
    assert(bytes.last() == name.last() as u8);
    path::law_join_file_name(dir, bytes);
    text::law_utf8_round_trip(name);
}

/// Gives the server and its clients the same secret, in files of the session's
/// directory.
pub struct XAuthorityManager {
    pub skip_locks: bool,
    pub runtime_dir: RuntimeDir,
    pub cookie: Cookie,
    pub hostname: Hostname,
}

impl XAuthorityManager {
    /// A manager for the given cookie, if one could be made, and host.
    pub fn new_with(
        runtime_dir: RuntimeDir,
        skip_locks: bool,
        hostname: Hostname,
        cookie: Option<Cookie>,
    ) -> (r: Result<Self, AuthorityError>)
        ensures
            match r {
                Ok(manager) => {
                    &&& cookie is Some
                    &&& manager.cookie@ == cookie->0@
                    &&& manager.hostname@ == hostname@
                    &&& manager.runtime_dir@ == runtime_dir@
                    &&& manager.skip_locks == skip_locks
                },
                Err(e) => cookie is None && e == AuthorityError::Random,
            },
    {
        match cookie {
            Some(cookie) => Ok(XAuthorityManager { skip_locks, runtime_dir, cookie, hostname }),
            None => Err(AuthorityError::Random),
        }
    }

    /// A manager with a new cookie.
    pub fn new(runtime_dir: RuntimeDir, skip_locks: bool) -> (r: Result<Self, AuthorityError>)
        ensures
            match r {
                Ok(manager) => {
                    &&& setup::is_drawn(Some(manager.cookie@))
                    &&& system::is_hostname(manager.hostname@)
                    &&& manager.runtime_dir@ == runtime_dir@
                    &&& manager.skip_locks == skip_locks
                },
                Err(e) => setup::is_drawn(None) && e == AuthorityError::Random,
            },
    {
        let cookie = setup::make_cookie();
        let hostname = setup::get_hostname();
        Self::new_with(runtime_dir, skip_locks, hostname, cookie)
    }

    fn create_auth_file(&self, path: &UnixPath) -> (r: Result<AuthorityFile, LockError>)
        ensures
            match r {
                Ok(xauth_file) => {
                    &&& !self.skip_locks ==> lock::lock_failure(path@) is None
                    &&& xauth_file.path@ == path@
                    &&& file::is_locked(xauth_file, !self.skip_locks)
                    &&& xauth_file.exclusive
                    &&& xauth_file.contents@.len() == 0
                },
                Err(e) => !self.skip_locks && lock::lock_failure(path@) == Some(e),
            },
    {
        if self.skip_locks {
            Ok(AuthorityFile::create_unlocked(path))
        } else {
            AuthorityFile::create(path)
        }
    }

    /// Whether a file is the server's.
    pub open spec fn is_server_file(&self, xauth_file: AuthorityFile) -> bool {
        &&& xauth_file.path@ == path::joined(self.runtime_dir@, text::utf8("server-authority"@))
        &&& file::is_locked(xauth_file, !self.skip_locks)
        &&& xauth_file.exclusive
        &&& xauth_file.contents@ == encoding::encoded_all(server_entries(self.cookie@))
    }

    /// Whether a file is that of the clients of a display.
    pub open spec fn is_client_file(&self, xauth_file: AuthorityFile, display: u8) -> bool {
        &&& xauth_file.path@ == path::joined(self.runtime_dir@, text::utf8("client-authority"@))
        &&& file::is_locked(xauth_file, !self.skip_locks)
        &&& xauth_file.exclusive
        &&& xauth_file.contents@ == encoding::encoded_all(
            client_entries(self.cookie@, self.hostname@, display),
        )
    }

    /// The server's file, and where it is.
    pub fn setup_server(&self) -> (r: (UnixPath, AuthorityFile))
        ensures
            r.0@ == path::joined(self.runtime_dir@, text::utf8("server-authority"@)),
            self.is_server_file(r.1),
    {
        let mut authority: Vec<Entry> = Vec::new();
        authority.push(Entry::new(&self.cookie, Scope::Any, Target::Server { slot: 0 }));
        assert(encoding::entry_views(authority@) =~= server_entries(self.cookie@));
        let path = self.runtime_dir.path.join_text("server-authority");
        proof {
            reveal_strlit("server-authority");
            lemma_lockable(self.runtime_dir@, "server-authority"@);
            lemma_entries_fit(self.cookie, Seq::empty(), 0);
        }
        let mut xauth_file = self.create_auth_file(&path).unwrap();
        let written = xauth_file.set(&authority);
        assert(written is Ok);
        assert(xauth_file.contents@ =~= encoding::encoded_all(server_entries(self.cookie@)));
        (path, xauth_file)
    }

    /// The client's file, and the variable by which clients find it.
    pub fn setup_client(&self, display: &Display) -> (r: Result<
        (ClientAuthority, AuthorityFile),
        AuthorityError,
    >)
        ensures
            match r {
                Ok((authority, xauth_file)) => {
                    &&& client_failure(self.hostname@) is None
                    &&& authority@ == path::joined(
                        self.runtime_dir@,
                        text::utf8("client-authority"@),
                    )
                    &&& self.is_client_file(xauth_file, display@)
                },
                Err(e) => client_failure(self.hostname@) == Some(e),
            },
    {
        let mut authority: Vec<Entry> = Vec::new();
        authority.push(
            Entry::new(
                &self.cookie,
                Scope::Any,
                Target::Client { display_number: display.number() },
            ),
        );
        authority.push(
            Entry::new(
                &self.cookie,
                Scope::Local(text::copy(&self.hostname)),
                Target::Client { display_number: display.number() },
            ),
        );
        assert(encoding::entry_views(authority@) =~= client_entries(
            self.cookie@,
            self.hostname@,
            display@,
        ));
        let path = self.runtime_dir.path.join_text("client-authority");
        proof {
            reveal_strlit("client-authority");
            lemma_lockable(self.runtime_dir@, "client-authority"@);
            lemma_entries_fit(self.cookie, self.hostname@, display@);
        }
        let mut xauth_file = self.create_auth_file(&path).unwrap();
        match xauth_file.set(&authority) {
            Ok(_) => {
                assert(xauth_file.contents@ =~= encoding::encoded_all(
                    client_entries(self.cookie@, self.hostname@, display@),
                ));
                Ok((ClientAuthority { path }, xauth_file))
            },
            Err(e) => Err(AuthorityError::Encode(e)),
        }
    }

    /// The directory of the session, which has to last as long as the session.
    pub fn finish(self) -> (r: RuntimeDir)
        ensures
            r@ == self.runtime_dir@,
    {
        self.runtime_dir
    }
}

// ---------------------------------------------------------------------------
// Laws
// ---------------------------------------------------------------------------
/// The file of the server and that of its clients hold the same cookie.
pub proof fn law_same_secret(cookie: Cookie, hostname: Seq<u8>, number: u8)
    requires
        hostname.len() <= 0xffff,
    ensures
        encoding::decoded_all(encoding::encoded_all(server_entries(cookie@))) == Some(
            seq![wildcard_entry(cookie@, 0)],
        ),
        encoding::decoded_all(encoding::encoded_all(client_entries(cookie@, hostname, number)))
            == Some(
            seq![wildcard_entry(cookie@, number), local_entry(cookie@, hostname, number)],
        ),
        wildcard_entry(cookie@, 0).data == cookie@,
        wildcard_entry(cookie@, number).data == cookie@,
        local_entry(cookie@, hostname, number).data == cookie@,
{
    lemma_entries_fit(cookie, hostname, number);
    encoding::law_file_round_trip(server_entries(cookie@));
    encoding::law_file_round_trip(client_entries(cookie@, hostname, number));
}

/// The server's file is set up once. Where that succeeds, the file holds the one
/// entry of the server, nothing else has changed and no lock is left behind. A
/// second attempt fails and leaves everything as it is.
pub proof fn law_server_file_once(
    files: Map<Seq<u8>, Node>,
    manager: XAuthorityManager,
    first: AuthorityFile,
    second: AuthorityFile,
)
    requires
        manager.is_server_file(first),
        manager.is_server_file(second),
        files::performed(files, file::writing(first)).1,
    ensures
        ({
            let after = files::performed(files, file::writing(first)).0;
            let p = path::joined(manager.runtime_dir@, text::utf8("server-authority"@));
            &&& after == files.insert(
                p,
                Node::File(encoding::encoded_all(server_entries(manager.cookie@))),
            )
            &&& first.lock matches Some(lock) ==> lock::is_lock_for(lock, p)
                && !after.contains_key(lock.creat_path@) && !after.contains_key(lock.link_path@)
            &&& files::performed(after, file::writing(second)) == (after, false)
        }),
{
    file::law_written_once(files, first, second, !manager.skip_locks);
}

/// The directory of a session and the files in it last until the directory that
/// [`XAuthorityManager::finish`] gives back is removed, and go with it.
pub proof fn law_session_lasts(
    files: Map<Seq<u8>, Node>,
    manager: XAuthorityManager,
    server: AuthorityFile,
    client: AuthorityFile,
    display: u8,
)
    requires
        manager.is_server_file(server),
        manager.is_client_file(client, display),
        files.contains_key(manager.runtime_dir@),
        files[manager.runtime_dir@] is Dir,
        files::performed(files, file::writing(server) + file::writing(client)).1,
    ensures
        ({
            let dir = manager.runtime_dir@;
            let after = files::performed(
                files,
                file::writing(server) + file::writing(client),
            ).0;
            let gone = files::done(after, StepView::RemoveDir { path: dir });
            &&& after.contains_key(dir) && after[dir] is Dir
            &&& after.contains_key(server.path@) && after[server.path@] == Node::File(
                server.contents@,
            )
            &&& after.contains_key(client.path@) && after[client.path@] == Node::File(
                client.contents@,
            )
            &&& gone matches Some(left) && !left.contains_key(dir) && !left.contains_key(
                server.path@,
            ) && !left.contains_key(client.path@)
        }),
{
    let dir = manager.runtime_dir@;
    let a = file::writing(server);
    let b = file::writing(client);
    files::law_performed_concat(files, a, b);
    let middle = files::performed(files, a).0;
    assert(files::performed(files, a).1);
    file::law_written_once(files, server, server, !manager.skip_locks);
    file::law_written_once(middle, client, client, !manager.skip_locks);
    law_files_differ(dir);
    let after = files::performed(middle, b).0;
    assert forall|i: int| 0 <= i < (a + b).len() implies !(#[trigger] (a + b)[i] is RemoveDir) by {
        lemma_keeps_directories(server);
        lemma_keeps_directories(client);
        if i < a.len() {
            assert((a + b)[i] == a[i]);
        } else {
            assert((a + b)[i] == b[i - a.len()]);
        }
    }
    files::law_directory_lasts(files, a + b, dir);
    reveal_strlit("server-authority");
    reveal_strlit("client-authority");
    vstd::utf8::is_ascii_chars_encode_utf8("server-authority"@);
    vstd::utf8::is_ascii_chars_encode_utf8("client-authority"@);
    let s = text::utf8("server-authority"@);
    let c = text::utf8("client-authority"@);
    assert(s[0] == "server-authority"@[0] as u8);
    assert(c[0] == "client-authority"@[0] as u8);
    files::law_directory_goes(after, dir, s);
    files::law_directory_goes(after, dir, c);
}

proof fn lemma_keeps_directories(xauth_file: AuthorityFile)
    ensures
        forall|i: int|
            0 <= i < file::writing(xauth_file).len() ==> !(#[trigger] file::writing(
                xauth_file,
            )[i] is RemoveDir),
{
    assert forall|i: int| 0 <= i < file::writing(xauth_file).len() implies !(
    #[trigger] file::writing(xauth_file)[i] is RemoveDir) by {}
}

/// The server and its clients have files of their own.
pub proof fn law_files_differ(dir: Seq<u8>)
    ensures
        path::joined(dir, text::utf8("server-authority"@)) != path::joined(
            dir,
            text::utf8("client-authority"@),
        ),
{
    reveal_strlit("server-authority");
    reveal_strlit("client-authority");
    let server = text::utf8("server-authority"@);
    let client = text::utf8("client-authority"@);
    vstd::utf8::is_ascii_chars_encode_utf8("server-authority"@);
    vstd::utf8::is_ascii_chars_encode_utf8("client-authority"@);
    assert(server[0] == "server-authority"@[0] as u8);
    assert(client[0] == "client-authority"@[0] as u8);
    if path::joined(dir, server) == path::joined(dir, client) {
        path::law_join_injective(dir, server, client);
    }
}

/// Clients can authenticate: the server's file holds one entry and the client's
/// file two, and each of them holds the cookie behind the name of the method that
/// X servers and clients know. The server goes by its entry wherever a connection
/// comes from; of the client's, the first is for connections from anywhere and the
/// second for those from the given host, both under the number of the display.
pub proof fn law_clients_authenticate(cookie: Cookie, hostname: Seq<u8>, number: u8)
    requires
        hostname.len() <= 0xffff,
    ensures
        ({
            let method = seq![
                0x4du8, 0x49u8, 0x54u8, 0x2du8, 0x4du8, 0x41u8, 0x47u8, 0x49u8, 0x43u8,
                0x2du8, 0x43u8, 0x4fu8, 0x4fu8, 0x4bu8, 0x49u8, 0x45u8, 0x2du8, 0x31u8,
            ];
            let server = encoding::decoded_all(encoding::encoded_all(server_entries(cookie@)));
            let client = encoding::decoded_all(
                encoding::encoded_all(client_entries(cookie@, hostname, number)),
            );
            &&& server matches Some(entries) && {
                &&& entries.len() == 1
                &&& entries[0].family == Family::Wild
                &&& entries[0].address == seq![127u8, 0u8, 0u8, 2u8]
                &&& entries[0].display == seq![0u8]
                &&& entries[0].name == method
                &&& entries[0].data == cookie@
            }
            &&& client matches Some(entries) && {
                &&& entries.len() == 2
                &&& entries[0].family == Family::Wild
                &&& entries[0].address == seq![127u8, 0u8, 0u8, 2u8]
                &&& entries[1].family == Family::Local
                &&& entries[1].address == hostname
                &&& forall|i: int|
                    0 <= i < 2 ==> {
                        &&& (#[trigger] entries[i]).name == method
                        &&& entries[i].data == cookie@
                        &&& entries[i].display == seq![number]
                    }
            }
        }),
{
    law_same_secret(cookie, hostname, number);
    reveal_strlit("MIT-MAGIC-COOKIE-1");
    text::lemma_ascii_bytes("MIT-MAGIC-COOKIE-1"@);
    let method = seq![
        0x4du8, 0x49u8, 0x54u8, 0x2du8, 0x4du8, 0x41u8, 0x47u8, 0x49u8, 0x43u8, 0x2du8, 0x43u8,
        0x4fu8, 0x4fu8, 0x4bu8, 0x49u8, 0x45u8, 0x2du8, 0x31u8,
    ];
    assert(text::utf8(Cookie::AUTH_NAME@) =~= method);
}

/// The client's file can be set up exactly where the name of the host fits.
pub proof fn law_client_failure(hostname: Seq<u8>)
    ensures
        client_failure(hostname) is None <==> hostname.len() < 65536,
        hostname.len() >= 65536 ==> client_failure(hostname) == Some(
            AuthorityError::Encode(EncodeError { field: Field::Address }),
        ),
{
}

} // verus!
