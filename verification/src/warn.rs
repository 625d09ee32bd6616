//! Failures that are worth a word but stop nothing.
use vstd::prelude::*;

use crate::env::parse::EnvError;
use crate::text;

verus! {

/// Something the user should hear of.
pub enum Warning {
    /// The session has no seat, for this reason.
    NoSeat(EnvError),
    /// The session is not registered as one of the right type, but of this one.
    WrongSessionType(String),
    /// The type of the session cannot be read.
    UnreadableSessionType,
    /// There is no script for `xinit` to run.
    NoXinitRc,
    /// The session does not say what desktop it is.
    NoDesktopNames,
    /// This text is no variable of an environment.
    NotAnEntry(String),
    /// The variable of this name is not text.
    NotText(String),
}

/// What the user is told of a session of the wrong type.
pub open spec fn wrong_session_type(kind: Seq<char>) -> Seq<char> {
    "XDG_SESSION_TYPE variable is incorrect: expected 'x11', got '"@ + kind
        + "'.\n                Logind will register this session as wrong type.\n                You should set this variable via your session manager.\n                "@
}

/// What the user is told of a text that is no variable of an environment.
pub open spec fn not_an_entry(pair: Seq<char>) -> Seq<char> {
    "Skipping "@ + pair + ": not a valid env entry"@
}

/// What the user is told of a variable that is not text: a text in quotes, with
/// its unprintable characters escaped.
pub open spec fn not_text(key: Seq<char>) -> Seq<char> {
    text::quoted("Skipping passing variable "@ + key + " to systemd: could not convert to string"@)
}

/// What the user is told.
pub open spec fn warning_text(warning: Warning) -> Seq<char> {
    match warning {
        Warning::NoSeat(_) => "Cannot find a seat for the current session"@,
        Warning::WrongSessionType(kind) => wrong_session_type(kind@),
        Warning::UnreadableSessionType => "XDG_SESSION_TYPE variable is not valid UTF-8"@,
        Warning::NoXinitRc => "Cannot find xinit RC, using xterm as fallback client"@,
        Warning::NoDesktopNames => {
            "The session's definition does not provide XDG desktop name(s)"@
        },
        Warning::NotAnEntry(pair) => not_an_entry(pair@),
        Warning::NotText(key) => not_text(key@),
    }
}

/// What the user is told, and what it came from if something is known of that.
#[verifier::ext_equal]
pub struct Notice {
    pub text: Seq<char>,
    pub cause: Option<EnvError>,
}

/// A notice of which no cause is known.
pub open spec fn plain(text: Seq<char>) -> Notice {
    Notice { text, cause: None }
}

impl View for Warning {
    type V = Notice;

    open spec fn view(&self) -> Notice {
        Notice {
            text: warning_text(*self),
            cause: match self {
                Warning::NoSeat(cause) => Some(*cause),
                _ => None,
            },
        }
    }
}

/// What the user is told by each warning of a list.
pub open spec fn notices(warnings: Seq<Warning>) -> Seq<Notice> {
    Seq::new(warnings.len(), |i: int| warnings[i]@)
}

/// One more warning is one more thing the user is told.
pub proof fn lemma_notices_push(warnings: Seq<Warning>, warning: Warning)
    ensures
        notices(warnings.push(warning)) == notices(warnings).push(warning@),
{
    assert(notices(warnings.push(warning)) =~= notices(warnings).push(warning@));
}

fn framed(before: &str, middle: &str, after: &str) -> (r: String)
    ensures
        r@ == before@ + middle@ + after@,
{
    let head = text::concat(before, middle);
    text::concat(head.as_str(), after)
}

impl Warning {
    /// What it came from, if something is known of that.
    pub fn cause(&self) -> (r: Option<EnvError>)
        ensures
            r == self@.cause,
    {
        match self {
            Warning::NoSeat(cause) => Some(*cause),
            _ => None,
        }
    }

    /// What the user is told.
    pub fn message(&self) -> (r: String)
        ensures
            r@ == self@.text,
    {
        match self {
            Warning::NoSeat(_) => "Cannot find a seat for the current session".to_owned(),
            Warning::WrongSessionType(kind) => framed(
                "XDG_SESSION_TYPE variable is incorrect: expected 'x11', got '",
                kind.as_str(),
                "'.\n                Logind will register this session as wrong type.\n                You should set this variable via your session manager.\n                ",
            ),
            Warning::UnreadableSessionType => {
                "XDG_SESSION_TYPE variable is not valid UTF-8".to_owned()
            },
            Warning::NoXinitRc => {
                "Cannot find xinit RC, using xterm as fallback client".to_owned()
            },
            Warning::NoDesktopNames => {
                "The session's definition does not provide XDG desktop name(s)".to_owned()
            },
            Warning::NotAnEntry(pair) => framed(
                "Skipping ",
                pair.as_str(),
                ": not a valid env entry",
            ),
            Warning::NotText(key) => text::quote(
                framed(
                    "Skipping passing variable ",
                    key.as_str(),
                    " to systemd: could not convert to string",
                ).as_str(),
            ),
        }
    }
}

/// Going on after a failure.
pub trait WarnExt<T, E>: Sized {
    /// What was to be had.
    spec fn outcome(self) -> Result<T, E>;

    /// What was to be had, if it was. The failure goes behind the warnings
    /// there are.
    fn warn(self, warnings: &mut Vec<E>) -> (r: Option<T>)
        ensures
            match self.outcome() {
                Ok(value) => r == Some(value) && final(warnings)@ == old(warnings)@,
                Err(e) => r is None && final(warnings)@ == old(warnings)@.push(e),
            },
    ;
}

impl<T, E> WarnExt<T, E> for Result<T, E> {
    open spec fn outcome(self) -> Result<T, E> {
        self
    }

    fn warn(self, warnings: &mut Vec<E>) -> (r: Option<T>) {
        match self {
            Ok(value) => Some(value),
            Err(e) => {
                warnings.push(e);
                None
            },
        }
    }
}

/// What the user is told names what it is about: the wrong type of a session, the
/// text that is no variable, and the variable that is not text.
pub proof fn law_named(name: String)
    ensures
        Warning::WrongSessionType(name)@.text
            == "XDG_SESSION_TYPE variable is incorrect: expected 'x11', got '"@ + name@
            + "'.\n                Logind will register this session as wrong type.\n                You should set this variable via your session manager.\n                "@,
        Warning::NotAnEntry(name)@.text == "Skipping "@ + name@ + ": not a valid env entry"@,
        Warning::NotText(name)@.text == text::quoted(
            "Skipping passing variable "@ + name@ + " to systemd: could not convert to string"@,
        ),
        Warning::WrongSessionType(name)@.cause is None,
        Warning::NotAnEntry(name)@.cause is None,
        Warning::NotText(name)@.cause is None,
{
}

/// What the user is told by a list of warnings is what each of them tells, in order.
pub proof fn law_notices(warnings: Seq<Warning>)
    ensures
        notices(warnings).len() == warnings.len(),
        forall|i: int|
            0 <= i < warnings.len() ==> #[trigger] notices(warnings)[i] == warnings[i]@,
        forall|i: int|
            0 <= i < warnings.len() ==> (#[trigger] warnings[i] matches Warning::NoSeat(cause)
                ==> notices(warnings)[i].cause == Some(cause)),
{
}

} // verus!
