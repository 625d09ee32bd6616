//! Variables with a type of their own.
use vstd::prelude::*;

use crate::text;

verus! {

/// Why a raw value is no value of a variable.
#[derive(Clone, Copy, PartialEq, Eq, Structural, Debug)]
pub enum ParseFailure {
    /// The value is not valid UTF-8.
    InvalidEncoding,
    /// The value does not have the form that the variable asks for.
    Malformed,
}

/// Why a variable cannot be had from an environment.
#[derive(Clone, Copy, PartialEq, Eq, Structural, Debug)]
pub enum EnvError {
    /// The environment does not hold the variable.
    Missing,
    /// It holds something that is no value of the variable.
    Parse(ParseFailure),
}

/// A type that has a form in the environment.
pub trait EnvironmentParse: Sized + View {
    /// The form of a value.
    spec fn serialized(value: Self::V) -> Seq<u8>;

    /// The value that a raw value stands for.
    spec fn deserialized(raw: Seq<u8>) -> Result<Self::V, ParseFailure>;

    /// The form of this value.
    fn env_serialize(self) -> (raw: Vec<u8>)
        ensures
            raw@ == Self::serialized(self@),
    ;

    /// The value that a raw value stands for.
    fn env_deserialize(raw: Vec<u8>) -> (r: Result<Self, ParseFailure>)
        ensures
            match r {
                Ok(value) => Self::deserialized(raw@) == Ok::<Self::V, ParseFailure>(value@),
                Err(e) => Self::deserialized(raw@) == Err::<Self::V, ParseFailure>(e),
            },
    ;
}

/// A type that is the value of one variable.
pub trait EnvironmentVariable: EnvironmentParse {
    /// The name of the variable.
    spec fn key_text() -> Seq<char>;

    /// The name of the variable.
    fn key() -> (r: &'static str)
        ensures
            r@ == Self::key_text(),
    ;
}

/// A raw value, read as text.
pub open spec fn as_text(raw: Seq<u8>) -> Result<Seq<char>, ParseFailure> {
    match text::decoded(raw) {
        Some(s) => Ok(s),
        None => Err(ParseFailure::InvalidEncoding),
    }
}

/// A raw value, read as an unsigned integer of at most `max`.
pub open spec fn as_unsigned(raw: Seq<u8>, max: nat) -> Result<nat, ParseFailure> {
    match text::decoded(raw) {
        Some(s) => match text::unsigned_value(s, max) {
            Some(n) => Ok(n),
            None => Err(ParseFailure::Malformed),
        },
        None => Err(ParseFailure::InvalidEncoding),
    }
}

/// A raw value, read as an `i32`.
pub open spec fn as_i32(raw: Seq<u8>) -> Result<int, ParseFailure> {
    match text::decoded(raw) {
        Some(s) => match text::signed_value(s, i32::MIN as int, i32::MAX as int) {
            Some(n) => Ok(n),
            None => Err(ParseFailure::Malformed),
        },
        None => Err(ParseFailure::InvalidEncoding),
    }
}

/// Reads a raw value as text.
pub fn read_text(raw: Vec<u8>) -> (r: Result<String, ParseFailure>)
    ensures
        match r {
            Ok(s) => as_text(raw@) == Ok::<Seq<char>, ParseFailure>(s@),
            Err(e) => as_text(raw@) == Err::<Seq<char>, ParseFailure>(e),
        },
{
    match text::from_utf8(raw) {
        Some(s) => Ok(s),
        None => Err(ParseFailure::InvalidEncoding),
    }
}

/// Reads a raw value as an unsigned integer of at most `max`.
pub fn read_unsigned(raw: Vec<u8>, max: u32) -> (r: Result<u32, ParseFailure>)
    ensures
        match r {
            Ok(n) => as_unsigned(raw@, max as nat) == Ok::<nat, ParseFailure>(n as nat) && n
                <= max,
            Err(e) => as_unsigned(raw@, max as nat) == Err::<nat, ParseFailure>(e),
        },
{
    match text::from_utf8(raw) {
        Some(s) => match text::parse_unsigned(s.as_str(), max) {
            Some(n) => Ok(n),
            None => Err(ParseFailure::Malformed),
        },
        None => Err(ParseFailure::InvalidEncoding),
    }
}

/// Reads a raw value as an `i32`.
pub fn read_i32(raw: Vec<u8>) -> (r: Result<i32, ParseFailure>)
    ensures
        match r {
            Ok(n) => as_i32(raw@) == Ok::<int, ParseFailure>(n as int),
            Err(e) => as_i32(raw@) == Err::<int, ParseFailure>(e),
        },
{
    match text::from_utf8(raw) {
        Some(s) => match text::parse_i32(s.as_str()) {
            Some(n) => Ok(n),
            None => Err(ParseFailure::Malformed),
        },
        None => Err(ParseFailure::InvalidEncoding),
    }
}

} // verus!
