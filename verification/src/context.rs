//! What is known of the session that is to be started.
use vstd::prelude::*;

use crate::env::container;
use crate::env::container::Env;
use crate::env::container::EnvBuf;
use crate::env::container::EnvRaw;
use crate::env::parse::EnvError;
use crate::env::parse::EnvironmentParse;
use crate::env::parse::EnvironmentVariable;
use crate::env::system as system_env;
use crate::env::system::EnvOs;
use crate::env::system::OsVariable;
use crate::env::variables::Seat;
use crate::env::variables::SessionKind;
use crate::env::variables::Terminal;
use crate::system;
use crate::text;
use crate::warn;
use crate::warn::Notice;
use crate::warn::WarnExt;
use crate::warn::Warning;
use crate::views;

verus! {

/// The session that is to be started.
pub struct SessionContext<V: Terminal> {
    pub seat: Option<Seat>,
    pub vt_number: Option<V>,
    /// What the client finds in its environment on top of everything else.
    pub env_diff: Option<EnvBuf>,
}

impl<V: Terminal> Default for SessionContext<V> {
    fn default() -> (r: Self)
        ensures
            r.seat is None,
            r.vt_number is None,
            r.env_diff is None,
    {
        SessionContext { seat: None, vt_number: None, env_diff: None }
    }
}

/// Where the session comes from.
#[derive(Clone, Copy, PartialEq, Eq, Structural, Debug)]
pub enum ContextMode {
    /// Let Xorg handle everything.
    Nothing,
    /// Like `Nothing`, but pre-allocate a VT.
    VtAlloc,
    /// Use XDG environment variables.
    Xdg,
}

impl Default for ContextMode {
    fn default() -> (r: Self)
        ensures
            r == ContextMode::Xdg,
    {
        ContextMode::Xdg
    }
}

/// Why nothing is known of the session: it has no virtual terminal.
#[derive(Clone, Copy, PartialEq, Eq, Structural, Debug)]
pub enum NoTerminal {
    /// None was allocated for it, as far as the environment says.
    NotNamed(EnvError),
    /// None can be allocated for it.
    NotAllocated,
}

/// What a variable is in the environment of the process.
pub open spec fn inherited_variable<T: EnvironmentVariable>(system: Seq<OsVariable>) -> Result<
    T::V,
    EnvError,
> {
    container::variable::<T>(
        system_env::os_lookup(system_env::os_views(system), text::utf8(T::key_text())),
    )
}

/// What the user is told of a session: that it has no seat and why, and that it is
/// registered as one of the wrong type.
pub open spec fn xdg_warnings(
    seat: Result<Seq<char>, EnvError>,
    kind: Result<Seq<char>, EnvError>,
) -> Seq<Notice> {
    (match seat {
        Ok(_) => Seq::empty(),
        Err(cause) => seq![Warning::NoSeat(cause)@],
    }) + (match kind {
        Ok(name) => if name == SessionKind::X11@ {
            Seq::empty()
        } else {
            seq![warn::plain(warn::wrong_session_type(name))]
        },
        Err(EnvError::Missing) => Seq::empty(),
        Err(_) => seq![Warning::UnreadableSessionType@],
    })
}

/// What is set for the client: the type of the session, unless there is one.
pub open spec fn xdg_settings(kind: Result<Seq<char>, EnvError>) -> Map<Seq<char>, Seq<u8>> {
    if kind == Err::<Seq<char>, EnvError>(EnvError::Missing) {
        Map::<Seq<char>, Seq<u8>>::empty().insert(
            SessionKind::key_text(),
            SessionKind::serialized(SessionKind::X11@),
        )
    } else {
        Map::empty()
    }
}

/// Whether a context is the one that the environment of the process tells of.
pub open spec fn is_xdg<V: Terminal>(context: SessionContext<V>, system: Seq<OsVariable>) -> bool {
    &&& context.vt_number matches Some(vt) && inherited_variable::<V>(system) == Ok::<
        V::V,
        EnvError,
    >(vt@)
    &&& match inherited_variable::<Seat>(system) {
        Ok(seat) => context.seat matches Some(s) && s@ == seat,
        Err(_) => context.seat is None,
    }
    &&& context.env_diff matches Some(env) && env.well_formed() && env@ == system_env::collected(
        system,
        xdg_settings(inherited_variable::<SessionKind>(system)),
    )
}

/// The session that the environment of the process tells of.
///
/// This is the environment of the process regardless of which one the client is
/// to get: whoever opened the session put the variables there.
pub fn xdg<V: Terminal>(system: Vec<OsVariable>, warnings: &mut Vec<Warning>) -> (r: Result<
    SessionContext<V>,
    NoTerminal,
>)
    ensures
        match r {
            Ok(context) => {
                &&& is_xdg(context, system@)
                &&& warn::notices(final(warnings)@) == warn::notices(old(warnings)@)
                    + xdg_warnings(
                    inherited_variable::<Seat>(system@),
                    inherited_variable::<SessionKind>(system@),
                )
            },
            Err(e) => {
                &&& inherited_variable::<V>(system@) matches Err(cause) && e
                    == NoTerminal::NotNamed(cause)
                &&& final(warnings)@ == old(warnings)@
            },
        },
{
    let mut env = EnvOs::new_view(system);
    assert(env.appended()@ =~= Map::<Seq<char>, Seq<u8>>::empty());
    let ghost before = env;
    let vt_number = match env.get::<V>() {
        Ok(vt) => vt,
        Err(cause) => {
            return Err(NoTerminal::NotNamed(cause));
        },
    };
    let found: Result<Seat, Warning> = match env.get::<Seat>() {
        Ok(seat) => Ok(seat),
        Err(cause) => Err(Warning::NoSeat(cause)),
    };
    proof {
        if found is Err {
            warn::lemma_notices_push(old(warnings)@, found->Err_0);
        }
    }
    let seat = found.warn(warnings);
    let ghost kind = inherited_variable::<SessionKind>(system@);
    match env.get::<SessionKind>() {
        Ok(found) => {
            let x11 = SessionKind::X11.to_owned();
            if found.name != x11 {
                let warning = Warning::WrongSessionType(found.name);
                proof {
                    warn::lemma_notices_push(warnings@, warning);
                }
                warnings.push(warning);
            }
        },
        Err(EnvError::Missing) => {
            env.set(SessionKind::x11());
        },
        Err(_) => {
            proof {
                warn::lemma_notices_push(warnings@, Warning::UnreadableSessionType);
            }
            warnings.push(Warning::UnreadableSessionType);
        },
    }
    assert(env.appended()@ =~= xdg_settings(kind));
    assert(warn::notices(warnings@) =~= warn::notices(old(warnings)@) + xdg_warnings(
        inherited_variable::<Seat>(system@),
        kind,
    ));
    Ok(SessionContext { seat, vt_number: Some(vt_number), env_diff: Some(env.into_buf()) })
}

/// The mode that is followed.
pub open spec fn followed(given: Option<ContextMode>) -> ContextMode {
    match given {
        Some(mode) => mode,
        None => ContextMode::Xdg,
    }
}

/// The session that is to be started, as far as the mode lets anything be known
/// of it. `allocated` is a virtual terminal that was allocated for the session,
/// if one could be; it is there for the mode that asks for one.
pub fn aqquire<V: Terminal>(
    mode: Option<ContextMode>,
    allocated: Option<V>,
    system: Vec<OsVariable>,
    warnings: &mut Vec<Warning>,
) -> (r: Result<SessionContext<V>, NoTerminal>)
    ensures
        match followed(mode) {
            ContextMode::Nothing => {
                &&& r matches Ok(context) && context.seat is None && context.vt_number is None
                    && context.env_diff is None
                &&& final(warnings)@ == old(warnings)@
            },
            ContextMode::VtAlloc => {
                &&& match allocated {
                    Some(vt) => r matches Ok(context) && context.seat is None
                        && context.vt_number == Some(vt) && context.env_diff is None,
                    None => r matches Err(e) && e == NoTerminal::NotAllocated,
                }
                &&& final(warnings)@ == old(warnings)@
            },
            ContextMode::Xdg => match r {
                Ok(context) => {
                    &&& is_xdg(context, system@)
                    &&& warn::notices(final(warnings)@) == warn::notices(
                        old(warnings)@,
                    ) + xdg_warnings(
                        inherited_variable::<Seat>(system@),
                        inherited_variable::<SessionKind>(system@),
                    )
                },
                Err(e) => {
                    &&& inherited_variable::<V>(system@) matches Err(cause) && e
                        == NoTerminal::NotNamed(cause)
                    &&& final(warnings)@ == old(warnings)@
                },
            },
        },
{
    let mode = match mode {
        Some(mode) => mode,
        None => Default::default(),
    };
    match mode {
        ContextMode::Nothing => Ok(Default::default()),
        ContextMode::VtAlloc => match allocated {
            Some(vt) => Ok(SessionContext { seat: None, vt_number: Some(vt), env_diff: None }),
            None => Err(NoTerminal::NotAllocated),
        },
        ContextMode::Xdg => xdg(system, warnings),
    }
}

// ---------------------------------------------------------------------------
// Naming a session
// ---------------------------------------------------------------------------
/// The name of a session on this host: its seat and its virtual terminal, as
/// far as it has them.
pub open spec fn session_name(seat: Option<Seq<char>>, vt: Option<nat>) -> Option<Seq<char>> {
    match (seat, vt) {
        (Some(seat), Some(vt)) => Some(seat + seq!['-'] + text::digits(vt)),
        (Some(seat), None) => Some(seat),
        (None, Some(vt)) => Some(text::digits(vt)),
        (None, None) => None,
    }
}

/// Why a session has no name: the system gives no randomness.
#[derive(Clone, Copy, PartialEq, Eq, Structural, Debug)]
pub struct NoName;

impl<V: Terminal> SessionContext<V> {
    /// The name that the seat of the session and its virtual terminal make.
    pub open spec fn own_name(&self) -> Option<Seq<char>> {
        session_name(
            views::viewed(self.seat),
            match self.vt_number {
                Some(vt) => Some(V::terminal_number(vt@)),
                None => None,
            },
        )
    }

    /// The name of the session, given a random number, if there is one. The
    /// number is the name where the session has nothing of its own.
    pub fn unique_id_with(&self, random: Result<u32, NoName>) -> (r: Result<String, NoName>)
        ensures
            match r {
                Ok(id) => match self.own_name() {
                    Some(name) => id@ == name,
                    None => random is Ok && id@ == text::digits(random->Ok_0 as nat),
                },
                Err(_) => self.own_name() is None && random is Err,
            },
    {
        let mut parts: Vec<String> = Vec::new();
        match &self.seat {
            Some(seat) => parts.push(seat.name.clone()),
            None => {},
        }
        match &self.vt_number {
            Some(vt) => parts.push(text::decimal(vt.terminal() as u64)),
            None => {},
        }
        if parts.len() == 0 {
            return match random {
                Ok(id) => Ok(text::decimal(id as u64)),
                Err(e) => Err(e),
            };
        }
        let id = text::join(&parts, '-');
        proof {
            let all = text::texts(parts@);
            reveal_with_fuel(text::joined, 3);
            if parts@.len() == 1 {
                assert(all =~= seq![parts@[0]@]);
            } else {
                assert(all =~= seq![parts@[0]@, parts@[1]@]);
            }
            assert(id@ =~= self.own_name()->0);
        }
        Ok(id)
    }

    /// The name of the session. Where the session has nothing of its own to be
    /// named by, a random number is its name; the system is asked for one only
    /// then.
    pub fn unique_id(&self) -> (r: Result<String, NoName>)
        ensures
            match self.own_name() {
                Some(name) => r matches Ok(id) && id@ == name,
                None => exists|random: Result<u32, NoName>| #[trigger]
                    is_random_number(random) && match r {
                        Ok(id) => random is Ok && id@ == text::digits(random->Ok_0 as nat),
                        Err(_) => random is Err,
                    },
            },
    {
        if self.seat.is_some() || self.vt_number.is_some() {
            return self.unique_id_with(Err(NoName));
        }
        let bytes = system::random::<4>(system::RANDOM_INSECURE);
        let random = match bytes {
            Ok(bytes) => Ok(system::native(bytes)),
            Err(_) => Err(NoName),
        };
        assert(is_number_of(bytes, random));
        assert(is_random_number(random));
        self.unique_id_with(random)
    }
}

/// Whether a number is the one that comes of what the system gives when it is
/// asked for four random bytes: none where it gives none.
pub open spec fn is_number_of(
    bytes: Result<[u8; 4], rustix::io::Errno>,
    random: Result<u32, NoName>,
) -> bool {
    match bytes {
        Ok(bytes) => random matches Ok(n) && system::is_native(bytes, n),
        Err(_) => random is Err,
    }
}

/// Whether a number was made by asking the system for bytes that are unlikely to
/// repeat; none where the system gave none.
pub open spec fn is_random_number(random: Result<u32, NoName>) -> bool {
    exists|bytes: Result<[u8; 4], rustix::io::Errno>|
        system::is_random::<4>(system::RANDOM_INSECURE, bytes) && #[trigger] is_number_of(
            bytes,
            random,
        )
}

/// Sessions on different virtual terminals of one seat have different names.
pub proof fn law_names_differ(seat: Option<Seq<char>>, a: nat, b: nat)
    requires
        a != b,
    ensures
        session_name(seat, Some(a)) != session_name(seat, Some(b)),
{
    if session_name(seat, Some(a)) == session_name(seat, Some(b)) {
        let name_a = session_name(seat, Some(a))->0;
        let name_b = session_name(seat, Some(b))->0;
        match seat {
            Some(seat) => {
                assert(name_a.skip(seat.len() as int + 1) =~= text::digits(a));
                assert(name_b.skip(seat.len() as int + 1) =~= text::digits(b));
            },
            None => {},
        }
        text::law_digits_injective(a, b);
    }
}

/// The client finds every variable that the process was given, and the type of the
/// session: what the process was given for it, and otherwise that it is one of X.
pub proof fn law_session_environment<V: Terminal>(
    context: SessionContext<V>,
    system: Seq<OsVariable>,
    at: int,
    key: Seq<char>,
)
    requires
        is_xdg(context, system),
        0 <= at < system.len(),
        system[at].key@ == text::utf8(key),
        forall|i: int| at < i < system.len() ==> (#[trigger] system[i]).key@ != system[at].key@,
    ensures
        context.env_diff is Some,
        context.env_diff->0@.contains_key(key),
        context.env_diff->0@[key] == system[at].value@,
{
    let kind = inherited_variable::<SessionKind>(system);
    let raw = system_env::os_views(system);
    system_env::law_first_variable(raw, text::utf8("XDG_SESSION_TYPE"@));
    if xdg_settings(kind).contains_key(key) {
        assert(key == "XDG_SESSION_TYPE"@);
        assert(raw[at].0 == text::utf8(key));
    }
    system_env::law_every_inherited_variable(system, xdg_settings(kind), at, key);
}

/// A session of which the process was told no type is one of X.
pub proof fn law_session_type<V: Terminal>(context: SessionContext<V>, system: Seq<OsVariable>)
    requires
        is_xdg(context, system),
        forall|i: int|
            0 <= i < system.len() ==> (#[trigger] system[i]).key@ != text::utf8(
                "XDG_SESSION_TYPE"@,
            ),
    ensures
        context.env_diff is Some,
        context.env_diff->0@.contains_key("XDG_SESSION_TYPE"@),
        context.env_diff->0@["XDG_SESSION_TYPE"@] == text::utf8("x11"@),
{
    let kind = inherited_variable::<SessionKind>(system);
    let raw = system_env::os_views(system);
    assert forall|i: int| 0 <= i < raw.len() implies (#[trigger] raw[i]).0 != text::utf8(
        "XDG_SESSION_TYPE"@,
    ) by {
        assert(system[i].key@ != text::utf8("XDG_SESSION_TYPE"@));
    }
    system_env::law_first_variable(raw, text::utf8("XDG_SESSION_TYPE"@));
    system_env::law_nothing_else_inherited(
        system,
        xdg_settings(kind),
        "XDG_SESSION_TYPE"@,
    );
}

/// The terminal and the seat of the session are those that the process was given,
/// the first of each name.
pub proof fn law_session_place<V: Terminal>(
    context: SessionContext<V>,
    system: Seq<OsVariable>,
    at: int,
    name: Seq<char>,
)
    requires
        is_xdg(context, system),
        0 <= at < system.len(),
        system[at].key@ == text::utf8("XDG_SEAT"@),
        forall|i: int| 0 <= i < at ==> (#[trigger] system[i]).key@ != text::utf8("XDG_SEAT"@),
        system[at].value@ == text::utf8(name),
    ensures
        context.seat is Some,
        context.seat->0@ == name,
        context.vt_number is Some,
{
    let raw = system_env::os_views(system);
    assert forall|i: int| 0 <= i < at implies (#[trigger] raw[i]).0 != text::utf8(
        "XDG_SEAT"@,
    ) by {
        assert(system[i].key@ != text::utf8("XDG_SEAT"@));
    }
    assert(raw[at].0 == text::utf8("XDG_SEAT"@));
    system_env::law_first_variable(raw, text::utf8("XDG_SEAT"@));
    text::law_utf8_round_trip(name);
}

/// What the user hears of a session: that it has no seat, with the reason, if it has
/// none, and then that it is of the wrong type, with that type, or of a type that
/// cannot be read. A session of X and one of no type are no matter.
pub proof fn law_session_warnings(
    seat: Result<Seq<char>, EnvError>,
    kind: Result<Seq<char>, EnvError>,
)
    ensures
        ({
            let heard = xdg_warnings(seat, kind);
            let n: int = if seat is Err {
                1
            } else {
                0
            };
            let odd = match kind {
                Ok(name) => name != "x11"@,
                Err(e) => e != EnvError::Missing,
            };
            &&& heard.len() == n + if odd {
                1int
            } else {
                0int
            }
            &&& seat is Err ==> heard[0].text == "Cannot find a seat for the current session"@
                && heard[0].cause == Some(seat->Err_0)
            &&& odd ==> heard[n].cause is None
            &&& odd && kind is Ok ==> heard[n].text == warn::wrong_session_type(kind->Ok_0)
            &&& odd && kind is Err ==> heard[n].text
                == "XDG_SESSION_TYPE variable is not valid UTF-8"@
        }),
{
}

/// The name of a session is made of its seat and its terminal, as far as it has
/// them, with a dash between; a session with neither has no name of its own.
pub proof fn law_session_name(seat: Option<Seq<char>>, vt: Option<nat>)
    ensures
        session_name(seat, vt) is None <==> seat is None && vt is None,
        seat is Some && vt is None ==> session_name(seat, vt) == seat,
        seat is None && vt is Some ==> session_name(seat, vt)->0 == text::digits(vt->0),
        seat is Some && vt is Some ==> {
            let name = session_name(seat, vt)->0;
            let n = seat->0.len() as int;
            &&& name.len() == n + 1 + text::digits(vt->0).len()
            &&& name.take(n) == seat->0
            &&& name[n] == '-'
            &&& name.skip(n + 1) == text::digits(vt->0)
        },
{
    if seat is Some && vt is Some {
        let name = session_name(seat, vt)->0;
        let n = seat->0.len() as int;
        assert(name.take(n) =~= seat->0);
        assert(name.skip(n + 1) =~= text::digits(vt->0));
    }
}

/// The terminal of the session is the first that the process was given.
pub proof fn law_session_terminal<V: Terminal>(
    context: SessionContext<V>,
    system: Seq<OsVariable>,
    at: int,
)
    requires
        is_xdg(context, system),
        0 <= at < system.len(),
        system[at].key@ == text::utf8(V::key_text()),
        forall|i: int| 0 <= i < at ==> (#[trigger] system[i]).key@ != text::utf8(V::key_text()),
    ensures
        context.vt_number is Some,
        V::deserialized(system[at].value@) == Ok::<V::V, crate::env::parse::ParseFailure>(
            context.vt_number->0@,
        ),
{
    let raw = system_env::os_views(system);
    assert forall|i: int| 0 <= i < at implies (#[trigger] raw[i]).0 != text::utf8(
        V::key_text(),
    ) by {
        assert(system[i].key@ != text::utf8(V::key_text()));
    }
    assert(raw[at].0 == text::utf8(V::key_text()));
    system_env::law_first_variable(raw, text::utf8(V::key_text()));
}

/// A session has a name of its own exactly where it has a seat or a terminal, and
/// sessions that differ in the terminal or in having one have different names.
pub proof fn law_own_names<V: Terminal>(a: SessionContext<V>, b: SessionContext<V>)
    ensures
        a.own_name() is None <==> a.seat is None && a.vt_number is None,
        a.seat is Some && a.vt_number is None ==> a.own_name() == Some(a.seat->0@),
        a.seat is None && a.vt_number is Some ==> a.own_name() == Some(
            text::digits(V::terminal_number(a.vt_number->0@)),
        ),
        a.seat is Some && a.vt_number is Some ==> a.own_name() == Some(
            a.seat->0@ + "-"@ + text::digits(V::terminal_number(a.vt_number->0@)),
        ),
        a.seat == b.seat && a.vt_number is Some && b.vt_number is Some && V::terminal_number(
            a.vt_number->0@,
        ) != V::terminal_number(b.vt_number->0@) ==> a.own_name() != b.own_name(),
        a.seat is Some && a.seat == b.seat && a.vt_number is Some && b.vt_number is None
            ==> a.own_name() != b.own_name(),
{
    reveal_strlit("-");
    assert("-"@ =~= seq!['-']);
    if a.seat == b.seat && a.vt_number is Some && b.vt_number is Some && V::terminal_number(
        a.vt_number->0@,
    ) != V::terminal_number(b.vt_number->0@) {
        law_names_differ(
            views::viewed(a.seat),
            V::terminal_number(a.vt_number->0@),
            V::terminal_number(b.vt_number->0@),
        );
    }
    if a.seat is Some && a.seat == b.seat && a.vt_number is Some && b.vt_number is None {
        assert(a.own_name()->0.len() > b.own_name()->0.len());
    }
}

} // verus!
