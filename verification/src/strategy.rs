//! Which environment the client gets.
use vstd::prelude::*;

use crate::env::container;
use crate::env::container::Env;
use crate::env::container::EnvBuf;
use crate::env::container::EnvRaw;
use crate::env::diff;
use crate::env::diff::EnvDiff;
use crate::env::parse::EnvError;
use crate::env::parse::EnvironmentParse;
use crate::env::parse::EnvironmentVariable;
use crate::env::system;
use crate::env::system::EnvOs;
use crate::env::system::OsVariable;
use crate::env::variables;
use crate::env::variables::PathEnv;
use crate::systemd::environment::SystemdEnvironment;
use crate::text;
use crate::views;

verus! {

/// Where the environment is taken from.
#[derive(Clone, Copy, PartialEq, Eq, Structural, Debug)]
pub enum Strategy {
    /// Use unix session environment (shell profile).
    Unix,
    /// Use systemd environment.
    Systemd,
    /// Merge systemd and unix environment. Unix values take precedence.
    Merge,
}

impl Default for Strategy {
    fn default() -> (r: Self)
        ensures
            r == Strategy::Systemd,
    {
        Strategy::Systemd
    }
}

/// The strategy that is followed.
pub open spec fn followed(given: Option<Strategy>) -> Strategy {
    match given {
        Some(strategy) => strategy,
        None => Strategy::Systemd,
    }
}

/// Whether the service manager has to be asked.
pub fn asks_manager(given: Option<Strategy>) -> (r: bool)
    ensures
        r == (followed(given) != Strategy::Unix),
{
    let strategy: Strategy = match given {
        Some(strategy) => strategy,
        None => Default::default(),
    };
    match strategy {
        Strategy::Unix => false,
        _ => true,
    }
}

/// The directories of two environments together: each once, those of the
/// primary environment first. Where an environment has none that can be read,
/// they are those of the other.
pub open spec fn merged_path(
    primary: Result<Seq<Seq<char>>, EnvError>,
    secondary: Result<Seq<Seq<char>>, EnvError>,
) -> Option<Seq<Seq<char>>> {
    match (primary, secondary) {
        (Ok(a), Ok(b)) => Some(variables::deduplicated(a + b)),
        (Ok(a), Err(_)) => Some(a),
        (Err(_), Ok(b)) => Some(b),
        (Err(_), Err(_)) => None,
    }
}

/// The directories of two environments together.
pub fn env_path_merge<A: Env, B: Env>(primary: &A, secondary: &B) -> (r: Option<PathEnv>)
    requires
        primary.well_formed(),
        secondary.well_formed(),
    ensures
        match r {
            Some(path) => merged_path(
                container::variable_in::<A, PathEnv>(primary),
                container::variable_in::<B, PathEnv>(secondary),
            ) == Some(path@),
            None => merged_path(
                container::variable_in::<A, PathEnv>(primary),
                container::variable_in::<B, PathEnv>(secondary),
            ) is None,
        },
{
    match (primary.get::<PathEnv>(), secondary.get::<PathEnv>()) {
        (Ok(a), Ok(b)) => Some(a.add(b)),
        (Ok(a), Err(_)) => Some(a),
        (Err(_), Ok(b)) => Some(b),
        (Err(_), Err(_)) => None,
    }
}

/// An environment with other directories, if there are any.
pub open spec fn with_path(
    env: Map<Seq<char>, Seq<u8>>,
    path: Option<Seq<Seq<char>>>,
) -> Map<Seq<char>, Seq<u8>> {
    match path {
        Some(path) => env.insert(PathEnv::key_text(), PathEnv::serialized(path)),
        None => env,
    }
}

fn set_path(env: &mut EnvBuf, path: Option<PathEnv>)
    requires
        old(env).well_formed(),
    ensures
        final(env).well_formed(),
        final(env)@ == with_path(old(env)@, views::viewed(path)),
{
    match path {
        Some(path) => {
            env.set(path);
        },
        None => {},
    }
}

/// The directories of the manager's environment and of that of the process.
pub open spec fn common_path(
    systemd: Map<Seq<char>, Seq<u8>>,
    unix: Seq<(Seq<u8>, Seq<u8>)>,
) -> Option<Seq<Seq<char>>> {
    merged_path(
        container::variable::<PathEnv>(
            if systemd.contains_key(PathEnv::key_text()) {
                Some(systemd[PathEnv::key_text()])
            } else {
                None
            },
        ),
        container::variable::<PathEnv>(
            system::os_lookup(unix, text::utf8(PathEnv::key_text())),
        ),
    )
}

/// The environment that comes of a strategy, given that of the process and that
/// of the service manager. The manager's environment alone is given the
/// directories of the process too; a merged one has those of the process, like
/// all its variables.
pub open spec fn resolved(
    strategy: Strategy,
    unix: Seq<OsVariable>,
    systemd: Map<Seq<char>, Seq<u8>>,
) -> Map<Seq<char>, Seq<u8>> {
    let own = system::collected(unix, Map::empty());
    match strategy {
        Strategy::Unix => own,
        Strategy::Systemd => with_path(systemd, common_path(systemd, system::os_views(unix))),
        Strategy::Merge => systemd.union_prefer_right(own),
    }
}

/// The environment that comes of a strategy, given that of the process, and
/// that of the service manager where it has to be asked.
pub fn resolve_env(
    mode: Option<Strategy>,
    unix: Vec<OsVariable>,
    systemd: Option<SystemdEnvironment>,
) -> (r: EnvBuf)
    requires
        followed(mode) != Strategy::Unix ==> systemd is Some,
        systemd matches Some(env) ==> env.well_formed(),
    ensures
        r.well_formed(),
        r@ == resolved(
            followed(mode),
            unix@,
            match systemd {
                Some(env) => env@,
                None => Map::empty(),
            },
        ),
{
    let strategy: Strategy = match mode {
        Some(strategy) => strategy,
        None => Default::default(),
    };
    let unix_env = EnvOs::new_view(unix);
    assert(unix_env.appended()@ =~= Map::<Seq<char>, Seq<u8>>::empty());
    let systemd_env = match (strategy, systemd) {
        (Strategy::Unix, _) => {
            return unix_env.into_buf();
        },
        (_, systemd) => systemd.unwrap(),
    };
    let path = env_path_merge(&systemd_env, &unix_env);
    let systemd_diff = systemd_env.to_env_diff();
    let mut env = EnvBuf::from_entries(&systemd_diff);
    proof {
        container::law_lists_override(
            Map::empty(),
            diff::entry_views(systemd_diff@),
            systemd_env@,
        );
        assert(env@ =~= systemd_env@);
    }
    match strategy {
        Strategy::Merge => {
            let own = unix_env.into_buf();
            let own_diff = own.to_env_diff();
            proof {
                container::law_lists_override(env@, diff::entry_views(own_diff@), own@);
            }
            env.apply(&own_diff);
        },
        _ => {
            set_path(&mut env, path);
        },
    }
    env
}

// ---------------------------------------------------------------------------
// Laws
// ---------------------------------------------------------------------------
/// Where environments are merged, values of the process take precedence: every
/// variable is what the process has, and what the service manager has where the
/// process has nothing; there are no others.
pub proof fn law_unix_takes_precedence(
    unix: Seq<OsVariable>,
    systemd: Map<Seq<char>, Seq<u8>>,
    key: Seq<char>,
)
    ensures
        ({
            let own = system::collected(unix, Map::empty());
            let merged = resolved(Strategy::Merge, unix, systemd);
            &&& merged.contains_key(key) == (own.contains_key(key) || systemd.contains_key(key))
            &&& own.contains_key(key) ==> merged[key] == own[key]
            &&& !own.contains_key(key) && systemd.contains_key(key) ==> merged[key]
                == systemd[key]
        }),
{
}

/// Where the environment of the service manager is taken, the directories of the
/// process are in it too, if both have any.
pub proof fn law_directories_of_both(
    unix: Seq<OsVariable>,
    systemd: Map<Seq<char>, Seq<u8>>,
    own: Seq<Seq<char>>,
    managed: Seq<Seq<char>>,
    directory: Seq<char>,
)
    requires
        systemd.contains_key(PathEnv::key_text()),
        container::variable::<PathEnv>(Some(systemd[PathEnv::key_text()])) == Ok::<
            Seq<Seq<char>>,
            EnvError,
        >(managed),
        container::variable::<PathEnv>(
            system::os_lookup(system::os_views(unix), text::utf8(PathEnv::key_text())),
        ) == Ok::<Seq<Seq<char>>, EnvError>(own),
    ensures
        ({
            let env = resolved(Strategy::Systemd, unix, systemd);
            let path = variables::deduplicated(managed + own);
            &&& env.contains_key(PathEnv::key_text())
            &&& env[PathEnv::key_text()] == PathEnv::serialized(path)
            &&& path.contains(directory) == (managed.contains(directory) || own.contains(
                directory,
            ))
        }),
{
    variables::law_merge_is_union(managed + own);
    let both = managed + own;
    if managed.contains(directory) {
        let i = managed.index_of(directory);
        assert(both[i] == directory);
    }
    if own.contains(directory) {
        let i = own.index_of(directory);
        assert(both[managed.len() + i] == directory);
    }
    if both.contains(directory) {
        let i = both.index_of(directory);
        if i < managed.len() {
            assert(managed[i] == directory);
        } else {
            assert(own[i - managed.len()] == directory);
        }
    }
}

/// Under the strategy that takes the environment of the service manager, which is
/// also the one that is followed unless another is asked for, every variable but
/// the directories of programs is what the manager has, and there are no others.
pub proof fn law_systemd_as_told(
    unix: Seq<OsVariable>,
    systemd: Map<Seq<char>, Seq<u8>>,
    key: Seq<char>,
)
    requires
        key != "PATH"@,
    ensures
        followed(None) == Strategy::Systemd,
        resolved(Strategy::Systemd, unix, systemd).contains_key(key) == systemd.contains_key(key),
        systemd.contains_key(key) ==> resolved(Strategy::Systemd, unix, systemd)[key]
            == systemd[key],
{
}

/// Under that strategy the directories of programs are those of the process where
/// the manager has none, those of the manager where the process has none, and
/// there are none where neither has any.
pub proof fn law_directories_of_one(unix: Seq<OsVariable>, systemd: Map<Seq<char>, Seq<u8>>)
    ensures
        ({
            let env = resolved(Strategy::Systemd, unix, systemd);
            let own = system::os_lookup(system::os_views(unix), text::utf8("PATH"@));
            &&& own is None && systemd.contains_key("PATH"@) ==> env == systemd
            &&& own is None && !systemd.contains_key("PATH"@) ==> env == systemd
            &&& own is Some && !systemd.contains_key("PATH"@) ==> env == (if text::decoded(
                own->0,
            ) is Some {
                systemd.insert("PATH"@, own->0)
            } else {
                systemd
            })
        }),
{
    let env = resolved(Strategy::Systemd, unix, systemd);
    let own = system::os_lookup(system::os_views(unix), text::utf8("PATH"@));
    match own {
        Some(raw) => {
            if text::decoded(raw) is Some {
                variables::law_path_canonical(raw);
            }
        },
        None => {
            if systemd.contains_key("PATH"@) {
                let raw = systemd["PATH"@];
                if text::decoded(raw) is Some {
                    variables::law_path_canonical(raw);
                    assert(env =~= systemd);
                }
            }
        },
    }
}

/// Under the strategy that takes the environment of the process, it is that of the
/// process, whatever the manager has.
pub proof fn law_unix_alone(
    unix: Seq<OsVariable>,
    systemd: Map<Seq<char>, Seq<u8>>,
    other: Map<Seq<char>, Seq<u8>>,
    at: int,
    key: Seq<char>,
)
    requires
        0 <= at < unix.len(),
        unix[at].key@ == text::utf8(key),
        forall|i: int| at < i < unix.len() ==> (#[trigger] unix[i]).key@ != unix[at].key@,
    ensures
        resolved(Strategy::Unix, unix, systemd) == resolved(Strategy::Unix, unix, other),
        resolved(Strategy::Unix, unix, systemd).contains_key(key),
        resolved(Strategy::Unix, unix, systemd)[key] == unix[at].value@,
        resolved(Strategy::Merge, unix, systemd).contains_key(key),
        resolved(Strategy::Merge, unix, systemd)[key] == unix[at].value@,
{
    system::law_every_inherited_variable(unix, Map::empty(), at, key);
}

/// Where only one of two environments has directories that can be read, they are
/// taken as they are; where both have, those of the first come first, each once;
/// where neither has, there are none.
pub proof fn law_merged_path(
    a: Seq<Seq<char>>,
    b: Seq<Seq<char>>,
    e: EnvError,
    directory: Seq<char>,
)
    ensures
        merged_path(Ok(a), Err(e)) == Some(a),
        merged_path(Err(e), Ok(b)) == Some(b),
        merged_path(Err(e), Err(e)) is None,
        merged_path(Ok(a), Ok(b)) is Some,
        ({
            let both = merged_path(Ok(a), Ok(b))->0;
            &&& both.contains(directory) <==> a.contains(directory) || b.contains(directory)
            &&& forall|i: int, j: int|
                #![trigger both[i], both[j]]
                0 <= i < j < both.len() ==> both[i] != both[j]
            &&& (forall|i: int, j: int| #![trigger a[i], a[j]] 0 <= i < j < a.len() ==> a[i] != a[j])
                ==> a.is_prefix_of(both)
        }),
{
    let s = a + b;
    let both = variables::deduplicated(s);
    variables::law_merge_is_union(s);
    variables::law_merge_order(a, b);
    assert(s.contains(directory) <==> a.contains(directory) || b.contains(directory)) by {
        if a.contains(directory) {
            let i = a.index_of(directory);
            assert(s[i] == directory);
        }
        if b.contains(directory) {
            let i = b.index_of(directory);
            assert(s[a.len() + i] == directory);
        }
        if s.contains(directory) {
            let i = s.index_of(directory);
            if i < a.len() {
                assert(a[i] == directory);
            } else {
                assert(b[i - a.len()] == directory);
            }
        }
    }
    let n = variables::deduplicated(a).len() as int;
    assert(both.subrange(0, n) =~= both.take(n));
}

/// Nothing is asked of the service manager under the strategy that does without it,
/// and only then; unless another is asked for, it is asked.
pub proof fn law_followed(given: Option<Strategy>)
    ensures
        given matches Some(strategy) ==> followed(given) == strategy,
        given is None ==> followed(given) == Strategy::Systemd,
{
}

} // verus!
