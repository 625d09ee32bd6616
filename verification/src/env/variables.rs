//! The variables that are read and set.
use vstd::prelude::*;

use crate::env::container;
use crate::env::container::Env;
use crate::env::container::EnvRaw;
use crate::env::parse;
use crate::env::parse::EnvironmentParse;
use crate::env::parse::EnvironmentVariable;
use crate::env::parse::ParseFailure;
use crate::path::UnixPath;
use crate::text;

verus! {

/// The login seat of a session.
pub struct Seat {
    pub name: String,
}

impl View for Seat {
    type V = Seq<char>;

    open spec fn view(&self) -> Seq<char> {
        self.name@
    }
}

impl EnvironmentParse for Seat {
    open spec fn serialized(value: Seq<char>) -> Seq<u8> {
        text::utf8(value)
    }

    open spec fn deserialized(raw: Seq<u8>) -> Result<Seq<char>, ParseFailure> {
        parse::as_text(raw)
    }

    fn env_serialize(self) -> (raw: Vec<u8>) {
        text::bytes_of(self.name.as_str())
    }

    fn env_deserialize(raw: Vec<u8>) -> (r: Result<Self, ParseFailure>) {
        match parse::read_text(raw) {
            Ok(name) => Ok(Seat { name }),
            Err(e) => Err(e),
        }
    }
}

impl EnvironmentVariable for Seat {
    open spec fn key_text() -> Seq<char> {
        "XDG_SEAT"@
    }

    fn key() -> (r: &'static str) {
        "XDG_SEAT"
    }
}

/// The type of a session.
pub struct SessionKind {
    pub name: String,
}

impl View for SessionKind {
    type V = Seq<char>;

    open spec fn view(&self) -> Seq<char> {
        self.name@
    }
}

impl EnvironmentParse for SessionKind {
    open spec fn serialized(value: Seq<char>) -> Seq<u8> {
        text::utf8(value)
    }

    open spec fn deserialized(raw: Seq<u8>) -> Result<Seq<char>, ParseFailure> {
        parse::as_text(raw)
    }

    fn env_serialize(self) -> (raw: Vec<u8>) {
        text::bytes_of(self.name.as_str())
    }

    fn env_deserialize(raw: Vec<u8>) -> (r: Result<Self, ParseFailure>) {
        match parse::read_text(raw) {
            Ok(name) => Ok(SessionKind { name }),
            Err(e) => Err(e),
        }
    }
}

impl EnvironmentVariable for SessionKind {
    open spec fn key_text() -> Seq<char> {
        "XDG_SESSION_TYPE"@
    }

    fn key() -> (r: &'static str) {
        "XDG_SESSION_TYPE"
    }
}

impl SessionKind {
    /// The type of a session in which clients speak to an X server.
    pub const X11: &'static str = "x11";

    /// The type of a session in which clients speak to an X server.
    pub fn x11() -> (r: Self)
        ensures
            r@ == Self::X11@,
    {
        SessionKind { name: Self::X11.to_owned() }
    }
}

/// The number of a virtual terminal.
#[derive(Clone, Copy)]
pub struct VtNumber {
    pub number: u32,
}

impl View for VtNumber {
    type V = u32;

    open spec fn view(&self) -> u32 {
        self.number
    }
}

impl EnvironmentParse for VtNumber {
    open spec fn serialized(value: u32) -> Seq<u8> {
        text::utf8(text::digits(value as nat))
    }

    open spec fn deserialized(raw: Seq<u8>) -> Result<u32, ParseFailure> {
        match parse::as_unsigned(raw, u32::MAX as nat) {
            Ok(n) => Ok(n as u32),
            Err(e) => Err(e),
        }
    }

    fn env_serialize(self) -> (raw: Vec<u8>) {
        let number = text::decimal(self.number as u64);
        text::bytes_of(number.as_str())
    }

    fn env_deserialize(raw: Vec<u8>) -> (r: Result<Self, ParseFailure>) {
        match parse::read_unsigned(raw, u32::MAX) {
            Ok(n) => Ok(VtNumber { number: n }),
            Err(e) => Err(e),
        }
    }
}

impl EnvironmentVariable for VtNumber {
    open spec fn key_text() -> Seq<char> {
        "XDG_VTNR"@
    }

    fn key() -> (r: &'static str) {
        "XDG_VTNR"
    }
}

/// A type for the number of a virtual terminal.
pub trait Terminal: EnvironmentVariable {
    /// The number.
    spec fn terminal_number(value: Self::V) -> nat;

    /// The number.
    fn terminal(&self) -> (r: u32)
        ensures
            r as nat == Self::terminal_number(self@),
    ;
}

impl Terminal for VtNumber {
    open spec fn terminal_number(value: u32) -> nat {
        value as nat
    }

    fn terminal(&self) -> (r: u32) {
        self.number
    }
}

/// The form of a virtual terminal's number stands for that number.
pub proof fn law_vt_number_round_trip(value: u32)
    ensures
        VtNumber::deserialized(VtNumber::serialized(value)) == Ok::<u32, ParseFailure>(value),
{
    text::law_utf8_round_trip(text::digits(value as nat));
    text::law_unsigned_round_trip(value as nat, u32::MAX as nat);
}

/// The number of a display.
#[derive(Clone, Copy)]
pub struct Display {
    pub number: u16,
}

impl View for Display {
    type V = u16;

    open spec fn view(&self) -> u16 {
        self.number
    }
}

impl Display {
    /// The display with the given number.
    pub fn from_number(n: u16) -> (r: Self)
        ensures
            r@ == n,
    {
        Display { number: n }
    }

    /// The number of the display.
    pub fn number(&self) -> (r: u16)
        ensures
            r == self@,
    {
        self.number
    }
}

impl EnvironmentParse for Display {
    open spec fn serialized(value: u16) -> Seq<u8> {
        text::utf8(text::digits(value as nat))
    }

    open spec fn deserialized(raw: Seq<u8>) -> Result<u16, ParseFailure> {
        match parse::as_unsigned(raw, u16::MAX as nat) {
            Ok(n) => Ok(n as u16),
            Err(e) => Err(e),
        }
    }

    fn env_serialize(self) -> (raw: Vec<u8>) {
        let number = text::decimal(self.number as u64);
        text::bytes_of(number.as_str())
    }

    fn env_deserialize(raw: Vec<u8>) -> (r: Result<Self, ParseFailure>) {
        match parse::read_unsigned(raw, u16::MAX as u32) {
            Ok(n) => Ok(Display { number: n as u16 }),
            Err(e) => Err(e),
        }
    }
}

impl EnvironmentVariable for Display {
    open spec fn key_text() -> Seq<char> {
        "DISPLAY"@
    }

    fn key() -> (r: &'static str) {
        "DISPLAY"
    }
}

/// The form of a display's number stands for that number.
pub proof fn law_display_round_trip(value: u16)
    ensures
        Display::deserialized(Display::serialized(value)) == Ok::<u16, ParseFailure>(value),
{
    text::law_utf8_round_trip(text::digits(value as nat));
    text::law_unsigned_round_trip(value as nat, u16::MAX as nat);
}

/// The virtual terminals through which a session is reached.
pub struct WindowPath {
    pub name: String,
}

impl View for WindowPath {
    type V = Seq<char>;

    open spec fn view(&self) -> Seq<char> {
        self.name@
    }
}

impl EnvironmentParse for WindowPath {
    open spec fn serialized(value: Seq<char>) -> Seq<u8> {
        text::utf8(value)
    }

    open spec fn deserialized(raw: Seq<u8>) -> Result<Seq<char>, ParseFailure> {
        parse::as_text(raw)
    }

    fn env_serialize(self) -> (raw: Vec<u8>) {
        text::bytes_of(self.name.as_str())
    }

    fn env_deserialize(raw: Vec<u8>) -> (r: Result<Self, ParseFailure>) {
        match parse::read_text(raw) {
            Ok(name) => Ok(WindowPath { name }),
            Err(e) => Err(e),
        }
    }
}

impl EnvironmentVariable for WindowPath {
    open spec fn key_text() -> Seq<char> {
        "WINDOWPATH"@
    }

    fn key() -> (r: &'static str) {
        "WINDOWPATH"
    }
}

/// The path of a window on a virtual terminal: the number of the terminal,
/// behind the path of the window that it is opened from.
pub open spec fn window_path(previous: Option<Seq<char>>, vt: nat) -> Seq<char> {
    match previous {
        Some(path) => path + seq![':'] + text::digits(vt),
        None => text::digits(vt),
    }
}

/// The path of the window that a new one is opened from.
pub open spec fn previous_window_path<E: EnvRaw>(env: &E) -> Option<Seq<char>> {
    match container::variable_in::<E, WindowPath>(env) {
        Ok(path) => Some(path),
        Err(_) => None,
    }
}

impl WindowPath {
    /// The path of a window on the given virtual terminal that is opened from
    /// within the given environment.
    pub fn previous_plus_vt<E: Env, V: Terminal>(env: &E, vt: &V) -> (r: Self)
        requires
            env.well_formed(),
        ensures
            r@ == window_path(previous_window_path(env), V::terminal_number(vt@)),
    {
        let number = text::decimal(vt.terminal() as u64);
        match env.get::<WindowPath>() {
            Ok(previous) => {
                let head = text::concat(previous.name.as_str(), ":");
                let path = text::concat(head.as_str(), number.as_str());
                proof {
                    reveal_strlit(":");
                }
                assert(path@ =~= previous@ + seq![':'] + number@);
                WindowPath { name: path }
            },
            Err(_) => WindowPath { name: number },
        }
    }
}

/// Where a user keeps what lasts as long as a login.
pub struct RuntimeDirEnv {
    pub path: UnixPath,
}

impl View for RuntimeDirEnv {
    type V = Seq<u8>;

    open spec fn view(&self) -> Seq<u8> {
        self.path@
    }
}

impl EnvironmentParse for RuntimeDirEnv {
    open spec fn serialized(value: Seq<u8>) -> Seq<u8> {
        value
    }

    open spec fn deserialized(raw: Seq<u8>) -> Result<Seq<u8>, ParseFailure> {
        Ok(raw)
    }

    fn env_serialize(self) -> (raw: Vec<u8>) {
        self.path.bytes
    }

    fn env_deserialize(raw: Vec<u8>) -> (r: Result<Self, ParseFailure>) {
        Ok(RuntimeDirEnv { path: UnixPath { bytes: raw } })
    }
}

impl EnvironmentVariable for RuntimeDirEnv {
    open spec fn key_text() -> Seq<char> {
        "XDG_RUNTIME_DIR"@
    }

    fn key() -> (r: &'static str) {
        "XDG_RUNTIME_DIR"
    }
}

/// The home directory of the user.
pub struct Home {
    pub path: UnixPath,
}

impl View for Home {
    type V = Seq<u8>;

    open spec fn view(&self) -> Seq<u8> {
        self.path@
    }
}

impl EnvironmentParse for Home {
    open spec fn serialized(value: Seq<u8>) -> Seq<u8> {
        value
    }

    open spec fn deserialized(raw: Seq<u8>) -> Result<Seq<u8>, ParseFailure> {
        Ok(raw)
    }

    fn env_serialize(self) -> (raw: Vec<u8>) {
        self.path.bytes
    }

    fn env_deserialize(raw: Vec<u8>) -> (r: Result<Self, ParseFailure>) {
        Ok(Home { path: UnixPath { bytes: raw } })
    }
}

impl EnvironmentVariable for Home {
    open spec fn key_text() -> Seq<char> {
        "HOME"@
    }

    fn key() -> (r: &'static str) {
        "HOME"
    }
}

/// Where clients find their authority.
pub struct ClientAuthority {
    pub path: UnixPath,
}

impl View for ClientAuthority {
    type V = Seq<u8>;

    open spec fn view(&self) -> Seq<u8> {
        self.path@
    }
}

impl EnvironmentParse for ClientAuthority {
    open spec fn serialized(value: Seq<u8>) -> Seq<u8> {
        value
    }

    open spec fn deserialized(raw: Seq<u8>) -> Result<Seq<u8>, ParseFailure> {
        Ok(raw)
    }

    fn env_serialize(self) -> (raw: Vec<u8>) {
        self.path.bytes
    }

    fn env_deserialize(raw: Vec<u8>) -> (r: Result<Self, ParseFailure>) {
        Ok(ClientAuthority { path: UnixPath { bytes: raw } })
    }
}

impl EnvironmentVariable for ClientAuthority {
    open spec fn key_text() -> Seq<char> {
        "XAUTHORITY"@
    }

    fn key() -> (r: &'static str) {
        "XAUTHORITY"
    }
}

/// The program that is run as the only client.
pub struct XinitRC {
    pub path: UnixPath,
}

impl View for XinitRC {
    type V = Seq<u8>;

    open spec fn view(&self) -> Seq<u8> {
        self.path@
    }
}

impl EnvironmentParse for XinitRC {
    open spec fn serialized(value: Seq<u8>) -> Seq<u8> {
        value
    }

    open spec fn deserialized(raw: Seq<u8>) -> Result<Seq<u8>, ParseFailure> {
        Ok(raw)
    }

    fn env_serialize(self) -> (raw: Vec<u8>) {
        self.path.bytes
    }

    fn env_deserialize(raw: Vec<u8>) -> (r: Result<Self, ParseFailure>) {
        Ok(XinitRC { path: UnixPath { bytes: raw } })
    }
}

impl EnvironmentVariable for XinitRC {
    open spec fn key_text() -> Seq<char> {
        "XINITRC"@
    }

    fn key() -> (r: &'static str) {
        "XINITRC"
    }
}

/// Where the service manager listens for notifications.
pub struct NotifySocket {
    pub path: UnixPath,
}

impl View for NotifySocket {
    type V = Seq<u8>;

    open spec fn view(&self) -> Seq<u8> {
        self.path@
    }
}

impl EnvironmentParse for NotifySocket {
    open spec fn serialized(value: Seq<u8>) -> Seq<u8> {
        value
    }

    open spec fn deserialized(raw: Seq<u8>) -> Result<Seq<u8>, ParseFailure> {
        Ok(raw)
    }

    fn env_serialize(self) -> (raw: Vec<u8>) {
        self.path.bytes
    }

    fn env_deserialize(raw: Vec<u8>) -> (r: Result<Self, ParseFailure>) {
        Ok(NotifySocket { path: UnixPath { bytes: raw } })
    }
}

impl EnvironmentVariable for NotifySocket {
    open spec fn key_text() -> Seq<char> {
        "NOTIFY_SOCKET"@
    }

    fn key() -> (r: &'static str) {
        "NOTIFY_SOCKET"
    }
}

/// A list of directories in which programs are looked for.
pub struct PathEnv {
    pub directories: Vec<String>,
}

impl View for PathEnv {
    type V = Seq<Seq<char>>;

    open spec fn view(&self) -> Seq<Seq<char>> {
        text::texts(self.directories@)
    }
}

impl EnvironmentParse for PathEnv {
    open spec fn serialized(value: Seq<Seq<char>>) -> Seq<u8> {
        text::utf8(text::joined(value, ':'))
    }

    open spec fn deserialized(raw: Seq<u8>) -> Result<Seq<Seq<char>>, ParseFailure> {
        match parse::as_text(raw) {
            Ok(s) => Ok(text::split_at_each(s, ':')),
            Err(e) => Err(e),
        }
    }

    fn env_serialize(self) -> (raw: Vec<u8>) {
        let joined = text::join(&self.directories, ':');
        text::bytes_of(joined.as_str())
    }

    fn env_deserialize(raw: Vec<u8>) -> (r: Result<Self, ParseFailure>) {
        match parse::read_text(raw) {
            Ok(s) => Ok(PathEnv { directories: text::split(s.as_str(), ':') }),
            Err(e) => Err(e),
        }
    }
}

impl EnvironmentVariable for PathEnv {
    open spec fn key_text() -> Seq<char> {
        "PATH"@
    }

    fn key() -> (r: &'static str) {
        "PATH"
    }
}

/// The distinct texts of a list, each where it first stands.
pub open spec fn deduplicated(s: Seq<Seq<char>>) -> Seq<Seq<char>>
    decreases s.len(),
{
    if s.len() == 0 {
        Seq::empty()
    } else if deduplicated(s.drop_last()).contains(s.last()) {
        deduplicated(s.drop_last())
    } else {
        deduplicated(s.drop_last()).push(s.last())
    }
}

/// Whether a list of texts holds a text.
fn contains_text(list: &Vec<String>, wanted: &String) -> (r: bool)
    ensures
        r == text::texts(list@).contains(wanted@),
{
    let ghost all = text::texts(list@);
    let mut i: usize = 0;
    while i < list.len()
        invariant
            i <= list@.len(),
            all == text::texts(list@),
            forall|j: int| 0 <= j < i ==> #[trigger] all[j] != wanted@,
        decreases list@.len() - i,
    {
        assert(all[i as int] == list@[i as int]@);
        if list[i] == *wanted {
            return true;
        }
        i = i + 1;
    }
    false
}

/// Appends those texts of `from` that `to` does not hold yet.
fn add_missing(to: &mut Vec<String>, from: &Vec<String>, Ghost(before): Ghost<Seq<Seq<char>>>)
    requires
        text::texts(old(to)@) == deduplicated(before),
    ensures
        text::texts(final(to)@) == deduplicated(before + text::texts(from@)),
{
    let ghost all = text::texts(from@);
    let mut i: usize = 0;
    assert(before + all.take(0) =~= before);
    while i < from.len()
        invariant
            i <= from@.len(),
            all == text::texts(from@),
            text::texts(to@) == deduplicated(before + all.take(i as int)),
        decreases from@.len() - i,
    {
        let ghost old_to = to@;
        assert((before + all.take(i + 1)).drop_last() =~= before + all.take(i as int));
        assert((before + all.take(i + 1)).last() == from@[i as int]@);
        if !contains_text(to, &from[i]) {
            to.push(from[i].clone());
            assert(text::texts(to@) =~= text::texts(old_to).push(from@[i as int]@));
        }
        i = i + 1;
    }
    assert(all.take(i as int) =~= all);
}

impl PathEnv {
    /// The directories of both lists, each once.
    pub fn add(self, rhs: Self) -> (r: Self)
        ensures
            r@ == deduplicated(self@ + rhs@),
    {
        let mut directories: Vec<String> = Vec::new();
        assert(text::texts(directories@) =~= deduplicated(Seq::empty()));
        add_missing(&mut directories, &self.directories, Ghost(Seq::empty()));
        assert(Seq::empty() + self@ =~= self@);
        add_missing(&mut directories, &rhs.directories, Ghost(self@));
        PathEnv { directories }
    }
}

/// Merged lists hold what either list holds, and nothing twice.
pub proof fn law_merge_is_union(s: Seq<Seq<char>>)
    ensures
        forall|directory: Seq<char>| #[trigger]
            deduplicated(s).contains(directory) <==> s.contains(directory),
        forall|i: int, j: int|
            #![trigger deduplicated(s)[i], deduplicated(s)[j]]
            0 <= i < j < deduplicated(s).len() ==> deduplicated(s)[i] != deduplicated(s)[j],
    decreases s.len(),
{
    if s.len() > 0 {
        let init = s.drop_last();
        let d = deduplicated(s);
        let d0 = deduplicated(init);
        law_merge_is_union(init);
        assert forall|directory: Seq<char>| #[trigger]
            d.contains(directory) <==> s.contains(directory) by {
            if s.contains(directory) {
                let i = choose|i: int| 0 <= i < s.len() && s[i] == directory;
                if i < init.len() {
                    assert(init[i] == directory);
                    assert(init.contains(directory));
                    assert(d0.contains(directory));
                    let k = choose|k: int| 0 <= k < d0.len() && d0[k] == directory;
                    assert(d[k] == directory);
                } else if !d0.contains(s.last()) {
                    assert(d[d0.len() as int] == directory);
                }
            }
            if d.contains(directory) {
                let k = choose|k: int| 0 <= k < d.len() && d[k] == directory;
                if k < d0.len() {
                    assert(d0[k] == directory);
                    assert(d0.contains(directory));
                    assert(init.contains(directory));
                    let i = choose|i: int| 0 <= i < init.len() && init[i] == directory;
                    assert(s[i] == directory);
                } else {
                    assert(s[s.len() - 1] == directory);
                }
            }
        }
        assert forall|i: int, j: int|
            #![trigger d[i], d[j]]
            0 <= i < j < d.len() implies d[i] != d[j] by {
            if j < d0.len() {
                assert(d0[i] != d0[j]);
            } else {
                assert(d0[i] == d[i]);
                assert(d0.contains(d0[i]));
            }
        }
    } else {
        assert(deduplicated(s) =~= s);
    }
}

/// A list of directories is read back as it was, where there is at least one
/// and none has a colon in its name.
pub proof fn law_path_round_trip(value: Seq<Seq<char>>)
    requires
        value.len() > 0,
        forall|i: int| 0 <= i < value.len() ==> !(#[trigger] value[i]).contains(':'),
    ensures
        PathEnv::deserialized(PathEnv::serialized(value)) == Ok::<Seq<Seq<char>>, ParseFailure>(
            value,
        ),
{
    text::law_utf8_round_trip(text::joined(value, ':'));
    text::law_split_join(value, ':');
}

/// A value that is read as a list of directories is written as it was.
pub proof fn law_path_canonical(raw: Seq<u8>)
    requires
        PathEnv::deserialized(raw) is Ok,
    ensures
        PathEnv::serialized(PathEnv::deserialized(raw)->Ok_0) == raw,
{
    text::law_utf8_decoded_encodes(raw);
    text::law_join_split(text::decoded(raw)->0, ':');
}

/// A text variable is read back as it was.
pub proof fn law_text_round_trip(value: Seq<char>)
    ensures
        Seat::deserialized(Seat::serialized(value)) == Ok::<Seq<char>, ParseFailure>(value),
        WindowPath::deserialized(WindowPath::serialized(value)) == Ok::<Seq<char>, ParseFailure>(
            value,
        ),
{
    text::law_utf8_round_trip(value);
}

/// The names of the variables.
pub proof fn law_names()
    ensures
        Seat::key_text() == "XDG_SEAT"@,
        SessionKind::key_text() == "XDG_SESSION_TYPE"@,
        VtNumber::key_text() == "XDG_VTNR"@,
        Display::key_text() == "DISPLAY"@,
        WindowPath::key_text() == "WINDOWPATH"@,
        RuntimeDirEnv::key_text() == "XDG_RUNTIME_DIR"@,
        Home::key_text() == "HOME"@,
        ClientAuthority::key_text() == "XAUTHORITY"@,
        XinitRC::key_text() == "XINITRC"@,
        NotifySocket::key_text() == "NOTIFY_SOCKET"@,
        PathEnv::key_text() == "PATH"@,
{
}

/// Variables that are paths are the raw bytes of the path, whatever they are, in
/// both directions.
pub proof fn law_raw_variables(raw: Seq<u8>)
    ensures
        RuntimeDirEnv::serialized(raw) == raw,
        RuntimeDirEnv::deserialized(raw) == Ok::<Seq<u8>, ParseFailure>(raw),
        Home::serialized(raw) == raw,
        Home::deserialized(raw) == Ok::<Seq<u8>, ParseFailure>(raw),
        ClientAuthority::serialized(raw) == raw,
        ClientAuthority::deserialized(raw) == Ok::<Seq<u8>, ParseFailure>(raw),
        XinitRC::serialized(raw) == raw,
        XinitRC::deserialized(raw) == Ok::<Seq<u8>, ParseFailure>(raw),
        NotifySocket::serialized(raw) == raw,
        NotifySocket::deserialized(raw) == Ok::<Seq<u8>, ParseFailure>(raw),
{
}

/// Variables that are text are its UTF-8 form, and bytes that are not text are no
/// value of them.
pub proof fn law_text_variables(s: Seq<char>, raw: Seq<u8>)
    ensures
        text::decoded(Seat::serialized(s)) == Some(s),
        text::decoded(SessionKind::serialized(s)) == Some(s),
        text::decoded(WindowPath::serialized(s)) == Some(s),
        Seat::deserialized(raw) is Err <==> text::decoded(raw) is None,
        Seat::deserialized(raw) matches Ok(name) ==> text::utf8(name) == raw,
        SessionKind::deserialized(raw) is Err <==> text::decoded(raw) is None,
        SessionKind::deserialized(raw) matches Ok(name) ==> text::utf8(name) == raw,
        WindowPath::deserialized(raw) is Err <==> text::decoded(raw) is None,
        WindowPath::deserialized(raw) matches Ok(name) ==> text::utf8(name) == raw,
{
    text::law_utf8_round_trip(s);
    if text::decoded(raw) is Some {
        text::law_utf8_decoded_encodes(raw);
    }
}

/// Variables that are numbers are read from digits, with or without a plus sign, as
/// far as they are in range, and are written without either zeros or a sign in
/// front.
pub proof fn law_number_variables(s: Seq<char>, n: u32, d: u16)
    requires
        s.len() > 0,
        forall|i: int| 0 <= i < s.len() ==> '0' <= #[trigger] s[i] <= '9',
    ensures
        VtNumber::deserialized(text::utf8(s)) is Ok <==> text::number_value(s) <= u32::MAX,
        VtNumber::deserialized(text::utf8(s)) matches Ok(vt) ==> vt == text::number_value(s),
        Display::deserialized(text::utf8(s)) is Ok <==> text::number_value(s) <= u16::MAX,
        Display::deserialized(text::utf8(s)) matches Ok(display) ==> display
            == text::number_value(s),
        text::decoded(VtNumber::serialized(n)) == Some(text::digits(n as nat)),
        text::decoded(Display::serialized(d)) == Some(text::digits(d as nat)),
{
    text::law_utf8_round_trip(s);
    text::law_unsigned(s, u32::MAX as nat);
    text::law_unsigned(s, u16::MAX as nat);
    text::law_utf8_round_trip(text::digits(n as nat));
    text::law_utf8_round_trip(text::digits(d as nat));
}

/// The path to a window is the path to the window that it was opened from, with the
/// number of one more terminal behind it, after a colon.
pub proof fn law_window_path(previous: Option<Seq<char>>, vt: nat)
    ensures
        ({
            let parts = text::split_at_each(window_path(previous, vt), ':');
            &&& parts.len() > 0
            &&& parts.last() == text::digits(vt)
            &&& previous is None ==> parts.len() == 1
            &&& previous is Some ==> parts.drop_last() == text::split_at_each(previous->0, ':')
        }),
{
    let number = text::digits(vt);
    text::lemma_digits(vt);
    assert(!number.contains(':')) by {
        if number.contains(':') {
            let i = choose|i: int| 0 <= i < number.len() && number[i] == ':';
            assert(text::is_digit(number[i]));
        }
    }
    match previous {
        Some(path) => {
            let parts = text::split_at_each(path, ':');
            text::law_split_parts(path, ':');
            text::law_join_split(path, ':');
            let all = parts.push(number);
            text::lemma_joined_push(parts, number, ':');
            assert forall|i: int| 0 <= i < all.len() implies !(#[trigger] all[i]).contains(':') by {
                if i < parts.len() {
                    assert(all[i] == parts[i]);
                }
            }
            text::law_split_join(all, ':');
            assert(window_path(previous, vt) =~= text::joined(all, ':'));
            assert(all.drop_last() =~= parts);
        },
        None => {
            let all = seq![number];
            text::law_split_join(all, ':');
            assert(text::joined(all, ':') == number);
        },
    }
}

/// Merged lists keep the order of both, the first list before the second: what the
/// first holds stands as if it were alone, and a list that holds nothing twice is
/// left as it is.
pub proof fn law_merge_order(a: Seq<Seq<char>>, b: Seq<Seq<char>>)
    ensures
        deduplicated(a + b).len() >= deduplicated(a).len(),
        deduplicated(a + b).take(deduplicated(a).len() as int) == deduplicated(a),
        (forall|i: int, j: int| #![trigger a[i], a[j]] 0 <= i < j < a.len() ==> a[i] != a[j])
            ==> deduplicated(a) == a,
    decreases a.len() + b.len(),
{
    if b.len() == 0 {
        assert(a + b =~= a);
        assert(deduplicated(a).take(deduplicated(a).len() as int) =~= deduplicated(a));
        if a.len() > 0 && (forall|i: int, j: int|
            #![trigger a[i], a[j]]
            0 <= i < j < a.len() ==> a[i] != a[j]) {
            let init = a.drop_last();
            assert forall|i: int, j: int|
                #![trigger init[i], init[j]]
                0 <= i < j < init.len() implies init[i] != init[j] by {
                assert(a[i] != a[j]);
            }
            law_merge_order(init, Seq::empty());
            assert(!init.contains(a.last())) by {
                if init.contains(a.last()) {
                    let i = choose|i: int| 0 <= i < init.len() && init[i] == a.last();
                    assert(a[i] != a[a.len() - 1]);
                }
            }
            assert(deduplicated(a) =~= a);
        } else if a.len() == 0 {
            assert(deduplicated(a) =~= a);
        }
    } else {
        assert((a + b).drop_last() =~= a + b.drop_last());
        law_merge_order(a, b.drop_last());
        let d = deduplicated(a + b);
        let n = deduplicated(a).len() as int;
        assert(d.take(n) =~= deduplicated(a + b.drop_last()).take(n));
    }
}

/// The window that a new one is opened from is the one that the environment names,
/// if it names one in text.
pub proof fn law_previous_window<E: EnvRaw>(env: &E)
    ensures
        ({
            let raw = env.lookup("WINDOWPATH"@);
            &&& previous_window_path(env) is Some <==> raw is Some && text::decoded(raw->0) is Some
            &&& previous_window_path(env) matches Some(path) ==> text::utf8(path) == raw->0
        }),
{
    let raw = env.lookup("WINDOWPATH"@);
    if raw is Some && text::decoded(raw->0) is Some {
        text::law_utf8_decoded_encodes(raw->0);
    }
}

/// The number of a terminal is the one that its variable holds.
pub proof fn law_terminal_number(n: u32)
    ensures
        VtNumber::terminal_number(n) == n,
{
}

} // verus!
