//! Telling the service manager how things are.
use vstd::prelude::*;

use crate::env::container;
use crate::env::container::Env;
use crate::env::container::EnvRaw;
use crate::env::parse::EnvError;
use crate::env::variables::NotifySocket;
use crate::path::UnixPath;
use crate::text;

verus! {

/// A connection to the service manager.
pub struct Notifier {
    /// The socket that it is connected to.
    pub socket: UnixPath,
}

impl Notifier {
    /// The connection that the environment asks for.
    pub fn from_env<E: Env>(env: &E) -> (r: Result<Self, EnvError>)
        requires
            env.well_formed(),
        ensures
            match r {
                Ok(notifier) => container::variable_in::<E, NotifySocket>(env) == Ok::<
                    Seq<u8>,
                    EnvError,
                >(notifier.socket@),
                Err(e) => container::variable_in::<E, NotifySocket>(env) == Err::<
                    Seq<u8>,
                    EnvError,
                >(e),
            },
    {
        match env.get::<NotifySocket>() {
            Ok(socket) => Ok(Notifier { socket: socket.path }),
            Err(e) => Err(e),
        }
    }

    /// What the manager is sent when everything is up.
    pub fn notify_ready(&self) -> (r: Vec<u8>)
        ensures
            r@ == text::utf8("READY=1"@),
    {
        text::bytes_of("READY=1")
    }

    /// What the manager is sent when things come to an end.
    pub fn notify_stopping(&self) -> (r: Vec<u8>)
        ensures
            r@ == text::utf8("STOPPING=1"@),
    {
        text::bytes_of("STOPPING=1")
    }
}

} // verus!
