//! The variables of sessions with small numbers.
use vstd::prelude::*;

use crate::env::parse;
use crate::env::parse::EnvironmentParse;
use crate::env::parse::EnvironmentVariable;
use crate::env::parse::ParseFailure;
use crate::env::variables::Terminal;
use crate::text;

verus! {

/// The number of a virtual terminal.
#[derive(Clone, Copy)]
pub struct VtNumber {
    pub number: u8,
}

impl View for VtNumber {
    type V = u8;

    open spec fn view(&self) -> u8 {
        self.number
    }
}

impl EnvironmentParse for VtNumber {
    open spec fn serialized(value: u8) -> Seq<u8> {
        text::utf8(text::digits(value as nat))
    }

    open spec fn deserialized(raw: Seq<u8>) -> Result<u8, ParseFailure> {
        match parse::as_unsigned(raw, u8::MAX as nat) {
            Ok(n) => Ok(n as u8),
            Err(e) => Err(e),
        }
    }

    fn env_serialize(self) -> (raw: Vec<u8>) {
        let number = text::decimal(self.number as u64);
        text::bytes_of(number.as_str())
    }

    fn env_deserialize(raw: Vec<u8>) -> (r: Result<Self, ParseFailure>) {
        match parse::read_unsigned(raw, u8::MAX as u32) {
            Ok(n) => Ok(VtNumber { number: n as u8 }),
            Err(e) => Err(e),
        }
    }
}

impl EnvironmentVariable for VtNumber {
    open spec fn key_text() -> Seq<char> {
        "XDG_VTNR"@
    }

    fn key() -> (r: &'static str) {
        "XDG_VTNR"
    }
}

impl Terminal for VtNumber {
    open spec fn terminal_number(value: u8) -> nat {
        value as nat
    }

    fn terminal(&self) -> (r: u32) {
        self.number as u32
    }
}

/// The number of a display.
#[derive(Clone, Copy)]
pub struct Display {
    number: u8,
}

impl View for Display {
    type V = u8;

    closed spec fn view(&self) -> u8 {
        self.number
    }
}

/// Why a text is not the name of a display.
#[derive(Clone, Copy, PartialEq, Eq, Structural, Debug)]
pub struct DisplayParseError;

impl DisplayParseError {
    /// What the user is told.
    pub fn message(&self) -> (r: String)
        ensures
            r@ == "Display is an invalid value"@,
    {
        "Display is an invalid value".to_owned()
    }
}

/// The name of a display: its number behind a colon.
pub open spec fn display_name(value: u8) -> Seq<char> {
    seq![':'] + text::digits(value as nat)
}

/// The display that a name stands for: a number behind a colon.
pub open spec fn display_of_name(name: Seq<char>) -> Option<u8> {
    if name.len() == 0 || name[0] != ':' {
        None
    } else {
        match text::unsigned_value(name.drop_first(), u8::MAX as nat) {
            Some(n) => Some(n as u8),
            None => None,
        }
    }
}

impl Display {
    /// The display with the given number.
    pub fn from_number(n: u8) -> (r: Self)
        ensures
            r@ == n,
    {
        Display { number: n }
    }

    /// The number of the display.
    pub fn number(&self) -> (r: u8)
        ensures
            r == self@,
    {
        self.number
    }

    /// The display that a name stands for.
    pub fn from_name(name: &str) -> (r: Result<Self, DisplayParseError>)
        ensures
            match r {
                Ok(display) => display_of_name(name@) == Some(display@),
                Err(_) => display_of_name(name@) is None,
            },
    {
        let number = match text::strip_prefix(name, ':') {
            Some(number) => number,
            None => {
                return Err(DisplayParseError);
            },
        };
        match text::parse_unsigned(number.as_str(), u8::MAX as u32) {
            Some(n) => Ok(Display { number: n as u8 }),
            None => Err(DisplayParseError),
        }
    }
}

impl EnvironmentParse for Display {
    open spec fn serialized(value: u8) -> Seq<u8> {
        text::utf8(display_name(value))
    }

    open spec fn deserialized(raw: Seq<u8>) -> Result<u8, ParseFailure> {
        match parse::as_text(raw) {
            Ok(name) => match display_of_name(name) {
                Some(value) => Ok(value),
                None => Err(ParseFailure::Malformed),
            },
            Err(e) => Err(e),
        }
    }

    fn env_serialize(self) -> (raw: Vec<u8>) {
        let number = text::decimal(self.number as u64);
        let name = text::concat(":", number.as_str());
        proof {
            reveal_strlit(":");
        }
        assert(name@ =~= display_name(self@));
        text::bytes_of(name.as_str())
    }

    fn env_deserialize(raw: Vec<u8>) -> (r: Result<Self, ParseFailure>) {
        let name = match parse::read_text(raw) {
            Ok(name) => name,
            Err(e) => {
                return Err(e);
            },
        };
        match Display::from_name(name.as_str()) {
            Ok(display) => Ok(display),
            Err(_) => Err(ParseFailure::Malformed),
        }
    }
}

impl EnvironmentVariable for Display {
    open spec fn key_text() -> Seq<char> {
        "DISPLAY"@
    }

    fn key() -> (r: &'static str) {
        "DISPLAY"
    }
}

/// The form of a display's number stands for that number.
pub proof fn law_display_round_trip(value: u8)
    ensures
        Display::deserialized(Display::serialized(value)) == Ok::<u8, ParseFailure>(value),
{
    let name = display_name(value);
    text::law_utf8_round_trip(name);
    assert(name.drop_first() =~= text::digits(value as nat));
    text::law_unsigned_round_trip(value as nat, u8::MAX as nat);
}

/// The form of a virtual terminal's number stands for that number.
pub proof fn law_vt_number_round_trip(value: u8)
    ensures
        VtNumber::deserialized(VtNumber::serialized(value)) == Ok::<u8, ParseFailure>(value),
{
    text::law_utf8_round_trip(text::digits(value as nat));
    text::law_unsigned_round_trip(value as nat, u8::MAX as nat);
}

/// The name of a display is its number behind a colon. A name without a colon in
/// front, with anything but digits behind it, or with too great a number is that of
/// no display.
pub proof fn law_display_names(s: Seq<char>, n: u8)
    requires
        s.len() > 0,
        forall|i: int| 0 <= i < s.len() ==> '0' <= #[trigger] s[i] <= '9',
    ensures
        display_of_name(seq![':'] + s) is Some <==> text::number_value(s) <= 255,
        display_of_name(seq![':'] + s) matches Some(number) ==> number == text::number_value(s),
        display_of_name(s) is None,
        text::decoded(Display::serialized(n)) == Some(seq![':'] + text::digits(n as nat)),
        Display::key_text() == "DISPLAY"@,
        VtNumber::key_text() == "XDG_VTNR"@,
        VtNumber::deserialized(text::utf8(s)) is Ok <==> text::number_value(s) <= 255,
        VtNumber::deserialized(text::utf8(s)) matches Ok(number) ==> number
            == text::number_value(s),
        text::decoded(VtNumber::serialized(n)) == Some(text::digits(n as nat)),
{
    assert((seq![':'] + s).drop_first() =~= s);
    assert(s[0] != ':');
    text::law_unsigned(s, u8::MAX as nat);
    text::law_utf8_round_trip(s);
    text::law_utf8_round_trip(seq![':'] + text::digits(n as nat));
    text::law_utf8_round_trip(text::digits(n as nat));
}

/// The number of a terminal is the one that its variable holds.
pub proof fn law_terminal_number(n: u8)
    ensures
        VtNumber::terminal_number(n) == n,
{
}

} // verus!
