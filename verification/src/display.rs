//! Learning which display the server has taken.
use vstd::prelude::*;

use crate::env::variables::Display;
use crate::text;

verus! {

/// Why there is no display.
#[derive(Clone, Copy, PartialEq, Eq, Structural, Debug)]
pub enum DisplayError {
    /// What the server wrote is not text.
    Unreadable,
    /// The server ended without a word.
    Internal,
    /// What the server wrote is no display number.
    Invalid,
}

/// The display number, of at most `max`, in a line that the server wrote.
pub open spec fn received(line: Seq<u8>, max: nat) -> Result<nat, DisplayError> {
    match text::decoded(line) {
        None => Err(DisplayError::Unreadable),
        Some(s) => if s.len() == 0 {
            Err(DisplayError::Internal)
        } else {
            match text::unsigned_value(text::trimmed_end(s), max) {
                Some(n) => Ok(n),
                None => Err(DisplayError::Invalid),
            }
        },
    }
}

/// Reads the display number, of at most `max`, in a line that the server wrote.
pub fn receive(line: Vec<u8>, max: u32) -> (r: Result<u32, DisplayError>)
    ensures
        match r {
            Ok(n) => received(line@, max as nat) == Ok::<nat, DisplayError>(n as nat) && n <= max,
            Err(e) => received(line@, max as nat) == Err::<nat, DisplayError>(e),
        },
{
    let s = match text::from_utf8(line) {
        Some(s) => s,
        None => {
            return Err(DisplayError::Unreadable);
        },
    };
    let chars = text::chars_of(s.as_str());
    if chars.len() == 0 {
        return Err(DisplayError::Internal);
    }
    let number = text::trim_end(s.as_str());
    match text::parse_unsigned(number.as_str(), max) {
        Some(n) => Ok(n),
        None => Err(DisplayError::Invalid),
    }
}

/// The line in which the server says what display it has taken. It is empty if
/// the server ended before.
pub struct DisplayReceiver {
    pub line: Vec<u8>,
}

impl DisplayReceiver {
    /// The display.
    pub fn blocking_wait(self) -> (r: Result<Display, DisplayError>)
        ensures
            match r {
                Ok(display) => received(self.line@, u16::MAX as nat) == Ok::<nat, DisplayError>(
                    display@ as nat,
                ),
                Err(e) => received(self.line@, u16::MAX as nat) == Err::<nat, DisplayError>(e),
            },
    {
        match receive(self.line, u16::MAX as u32) {
            Ok(n) => Ok(Display::from_number(n as u16)),
            Err(e) => Err(e),
        }
    }
}

/// The server's own form of a display number, a line of digits, is understood.
pub proof fn law_received(n: nat, max: nat)
    requires
        n <= max,
    ensures
        received(text::utf8(text::digits(n) + seq!['\n']), max) == Ok::<nat, DisplayError>(n),
{
    let s = text::digits(n) + seq!['\n'];
    text::law_utf8_round_trip(s);
    text::lemma_digits(n);
    assert(s.drop_last() =~= text::digits(n));
    assert(text::is_digit(text::digits(n).last()));
    reveal_with_fuel(text::trimmed_end, 3);
    assert(text::trimmed_end(s) =~= text::digits(n));
    text::law_unsigned_round_trip(n, max);
}

/// What is understood: digits that stand for a number in range, followed by any
/// white space.
pub proof fn law_received_with_padding(number: Seq<char>, padding: Seq<char>, max: nat)
    requires
        number.len() > 0,
        forall|i: int| 0 <= i < number.len() ==> '0' <= #[trigger] number[i] <= '9',
        forall|i: int| 0 <= i < padding.len() ==> text::is_whitespace(#[trigger] padding[i]),
    ensures
        received(text::utf8(number + padding), max) == (if text::number_value(number) <= max {
            Ok::<nat, DisplayError>(text::number_value(number))
        } else {
            Err::<nat, DisplayError>(DisplayError::Invalid)
        }),
{
    text::law_utf8_round_trip(number + padding);
    assert(!text::is_whitespace(number[number.len() - 1]));
    text::law_trim_padding(number, padding);
    text::law_unsigned(number, max);
}

/// Nothing else is understood. A server that ended without a word, one whose words
/// are not text and one that says something else are told apart.
pub proof fn law_not_received(line: Seq<u8>, max: nat)
    ensures
        line.len() == 0 ==> received(line, max) == Err::<nat, DisplayError>(
            DisplayError::Internal,
        ),
        text::decoded(line) is None <==> received(line, max) == Err::<nat, DisplayError>(
            DisplayError::Unreadable,
        ),
        received(line, max) == Err::<nat, DisplayError>(DisplayError::Internal) ==> line.len()
            == 0,
        received(line, max) matches Ok(n) ==> n <= max && exists|s: Seq<char>, end: int|
            {
                &&& line == #[trigger] text::utf8(s)
                &&& 0 < end <= s.len()
                &&& text::unsigned_value(#[trigger] s.take(end), max) == Some(n)
                &&& forall|i: int| end <= i < s.len() ==> text::is_whitespace(#[trigger] s[i])
            },
{
    if line.len() == 0 {
        assert(line =~= Seq::<u8>::empty());
        text::law_utf8_round_trip(Seq::empty());
        assert(text::utf8(Seq::<char>::empty()) =~= line);
    }
    if text::decoded(line) is Some {
        let s = text::decoded(line)->0;
        text::law_utf8_decoded_encodes(line);
        if s.len() == 0 {
            assert(s =~= Seq::<char>::empty());
            assert(text::utf8(Seq::<char>::empty()) =~= Seq::<u8>::empty());
        }
        if received(line, max) is Ok {
            text::law_trimmed_end(s);
            let end = text::trimmed_end(s).len() as int;
            assert(s.take(end) == text::trimmed_end(s));
            assert(end > 0);
        }
    }
}

} // verus!
