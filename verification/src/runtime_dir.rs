//! The directory in which a user keeps what lasts as long as a login.
use vstd::prelude::*;

use crate::env::container;
use crate::env::container::Env;
use crate::env::container::EnvRaw;
use crate::env::parse::EnvError;
use crate::env::variables::RuntimeDirEnv;
use crate::files::FileStep;
use crate::files::StepView;
use crate::path;
use crate::path::UnixPath;
use crate::text;

verus! {

/// Why there is no runtime directory.
#[derive(Clone, Copy, PartialEq, Eq, Structural, Debug)]
pub enum RuntimeDirError {
    /// The environment does not provide one.
    NotProvided,
    /// Its permissions cannot be queried.
    NoMetadata,
    /// Others than its owner may use it: these are its permissions.
    Insecure(u32),
}

/// The runtime directory that an environment provides. `mode` is what the
/// system says of the permissions of the directory, if it says anything.
pub open spec fn runtime_dir<E: EnvRaw>(env: &E, mode: Option<u32>) -> Result<
    Seq<u8>,
    RuntimeDirError,
> {
    match container::variable_in::<E, RuntimeDirEnv>(env) {
        Err(_) => Err(RuntimeDirError::NotProvided),
        Ok(dir) => match mode {
            None => Err(RuntimeDirError::NoMetadata),
            Some(mode) => if mode & 0o077 == 0 {
                Ok(dir)
            } else {
                Err(RuntimeDirError::Insecure(mode))
            },
        },
    }
}

/// A directory that only its owner may use.
pub struct RuntimeDir {
    pub path: UnixPath,
}

impl View for RuntimeDir {
    type V = Seq<u8>;

    open spec fn view(&self) -> Seq<u8> {
        self.path@
    }
}

/// The path whose permissions have to be queried before the runtime directory
/// of an environment can be had.
pub fn directory_to_query<E: Env>(env: &E) -> (r: Option<UnixPath>)
    requires
        env.well_formed(),
    ensures
        match r {
            Some(dir) => container::variable_in::<E, RuntimeDirEnv>(env) == Ok::<
                Seq<u8>,
                EnvError,
            >(dir@),
            None => container::variable_in::<E, RuntimeDirEnv>(env) is Err,
        },
{
    match env.get::<RuntimeDirEnv>() {
        Ok(dir) => Some(dir.path),
        Err(_) => None,
    }
}

impl RuntimeDir {
    /// The runtime directory that an environment provides. `mode` is what the
    /// system says of its permissions.
    pub fn from_env<E: Env>(env: &E, mode: Option<u32>) -> (r: Result<Self, RuntimeDirError>)
        requires
            env.well_formed(),
        ensures
            match r {
                Ok(dir) => runtime_dir(env, mode) == Ok::<Seq<u8>, RuntimeDirError>(dir@),
                Err(e) => runtime_dir(env, mode) == Err::<Seq<u8>, RuntimeDirError>(e),
            },
    {
        let path = match env.get::<RuntimeDirEnv>() {
            Ok(dir) => dir.path,
            Err(_) => {
                return Err(RuntimeDirError::NotProvided);
            },
        };
        let mode = match mode {
            Some(mode) => mode,
            None => {
                return Err(RuntimeDirError::NoMetadata);
            },
        };
        if mode & 0o077 != 0 {
            return Err(RuntimeDirError::Insecure(mode));
        }
        Ok(RuntimeDir { path })
    }
}

impl RuntimeDir {
    /// The step that makes the directory.
    pub fn making(&self) -> (r: FileStep)
        ensures
            r@ == (StepView::MakeDir { path: self@ }),
    {
        FileStep::MakeDir { path: self.path.clone() }
    }

    /// The step that is due once the directory is no longer needed.
    pub fn removing(self) -> (r: FileStep)
        ensures
            r@ == (StepView::RemoveDir { path: self@ }),
    {
        FileStep::RemoveDir { path: self.path }
    }
}

/// Makes directories within the runtime directory.
pub struct RuntimeDirManager {
    path: UnixPath,
}

impl View for RuntimeDirManager {
    type V = Seq<u8>;

    closed spec fn view(&self) -> Seq<u8> {
        self.path@
    }
}

impl RuntimeDirManager {
    /// The permissions of the directories that are made.
    pub const MODE: u32 = 0o700;

    /// A manager for the runtime directory that an environment provides. `mode`
    /// is what the system says of its permissions.
    pub fn from_env<E: Env>(env: &E, mode: Option<u32>) -> (r: Result<Self, RuntimeDirError>)
        requires
            env.well_formed(),
        ensures
            match r {
                Ok(manager) => runtime_dir(env, mode) == Ok::<Seq<u8>, RuntimeDirError>(manager@),
                Err(e) => runtime_dir(env, mode) == Err::<Seq<u8>, RuntimeDirError>(e),
            },
    {
        match RuntimeDir::from_env(env, mode) {
            Ok(dir) => Ok(RuntimeDirManager { path: dir.path }),
            Err(e) => Err(e),
        }
    }

    /// The directory of the given name, to be made with the permissions `MODE`.
    pub fn create(&self, name: &str) -> (r: RuntimeDir)
        ensures
            r@ == path::joined(self@, text::utf8(name@)),
    {
        RuntimeDir { path: self.path.join_text(name) }
    }
}

// ---------------------------------------------------------------------------
// Laws
// ---------------------------------------------------------------------------
/// A runtime directory can be had exactly where the environment provides one and
/// neither its group nor anyone else may read, write or enter it; it is the one
/// that the environment provides.
pub proof fn law_secure_directory<E: EnvRaw>(env: &E, mode: Option<u32>)
    ensures
        ({
            let provided = env.lookup("XDG_RUNTIME_DIR"@);
            &&& runtime_dir(env, mode) is Ok <==> provided is Some && mode is Some && mode->0 % 64
                == 0
            &&& runtime_dir(env, mode) matches Ok(dir) ==> provided == Some(dir)
            &&& provided is None ==> runtime_dir(env, mode) == Err::<Seq<u8>, RuntimeDirError>(
                RuntimeDirError::NotProvided,
            )
            &&& provided is Some && mode is None ==> runtime_dir(env, mode) == Err::<
                Seq<u8>,
                RuntimeDirError,
            >(RuntimeDirError::NoMetadata)
            &&& provided is Some && mode is Some && mode->0 % 64 != 0 ==> runtime_dir(env, mode)
                == Err::<Seq<u8>, RuntimeDirError>(RuntimeDirError::Insecure(mode->0))
        }),
{
    if mode is Some {
        let m = mode->0;
        assert((m & 0o077 == 0) == (m % 64 == 0)) by (bit_vector);
    }
}

/// Directories are their owner's alone, who may do everything there.
pub proof fn law_directory_mode()
    ensures
        RuntimeDirManager::MODE % 64 == 0,
        RuntimeDirManager::MODE / 64 == 7,
{
}

} // verus!
