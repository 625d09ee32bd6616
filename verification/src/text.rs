//! Text: decimal numbers, trimming, splitting and UTF-8.
//!
//! A `String` is seen as its sequence of characters. Values that leave the
//! program (arguments, environment, files) are bytes; [`bytes_of`] and
//! [`from_utf8`] go between the two.
use vstd::prelude::*;
use vstd::string::StrSliceExecFns;
use vstd::string::StringExecFns;

verus! {

// ---------------------------------------------------------------------------
// Characters and bytes
// ---------------------------------------------------------------------------
/// `String::push`: appends one character to the end of the text.
pub assume_specification[ String::push ](s: &mut String, c: char)
    ensures
        final(s)@ == old(s)@.push(c),
;

/// The UTF-8 form of a text.
pub open spec fn utf8(s: Seq<char>) -> Seq<u8> {
    vstd::utf8::encode_utf8(s)
}

/// What a byte string says as text, if it says anything.
pub open spec fn decoded(bytes: Seq<u8>) -> Option<Seq<char>> {
    if vstd::utf8::valid_utf8(bytes) {
        Some(vstd::utf8::decode_utf8(bytes))
    } else {
        None
    }
}

/// `String::from_utf8`: bytes that are valid UTF-8 become the text that they
/// encode, and all others are refused.
#[verifier::external_body]
fn string_from_utf8(bytes: Vec<u8>) -> (r: Option<String>)
    ensures
        match r {
            Some(s) => decoded(bytes@) == Some(s@),
            None => decoded(bytes@) is None,
        },
{
    String::from_utf8(bytes).ok()
}

/// A text in quotes, with its quotes, backslashes and unprintable characters
/// escaped.
pub uninterp spec fn quoted(s: Seq<char>) -> Seq<char>;

/// `<str as Debug>::fmt`: the text in quotes, with its quotes, backslashes and
/// unprintable characters escaped. That the same text always has the same form is
/// all that is claimed; which characters are escaped, and how, is not stated.
#[verifier::external_body]
pub(crate) fn quote(s: &str) -> (r: String)
    ensures
        r@ == quoted(s@),
{
    format!("{:?}", s)
}

/// The text that `bytes` encode, or `None` where they are not valid UTF-8.
pub fn from_utf8(bytes: Vec<u8>) -> (r: Option<String>)
    ensures
        match r {
            Some(s) => decoded(bytes@) == Some(s@),
            None => decoded(bytes@) is None,
        },
{
    string_from_utf8(bytes)
}

/// The UTF-8 bytes of a text.
pub fn bytes_of(s: &str) -> (r: Vec<u8>)
    ensures
        r@ == utf8(s@),
{
    s.as_bytes_vec()
}

/// A copy of some bytes.
pub fn copy(bytes: &Vec<u8>) -> (r: Vec<u8>)
    ensures
        r@ == bytes@,
{
    let r = bytes.clone();
    assert(r@ =~= bytes@);
    r
}

/// Whether two byte strings are the same.
pub fn same(a: &Vec<u8>, b: &Vec<u8>) -> (r: bool)
    ensures
        r == (a@ == b@),
{
    if a.len() != b.len() {
        return false;
    }
    let mut i: usize = 0;
    while i < a.len()
        invariant
            i <= a@.len() == b@.len(),
            a@.take(i as int) == b@.take(i as int),
        decreases a@.len() - i,
    {
        if a[i] != b[i] {
            assert(a@[i as int] != b@[i as int]);
            return false;
        }
        i = i + 1;
        assert(a@.take(i as int) =~= a@.take(i - 1).push(a@[i - 1]));
        assert(b@.take(i as int) =~= b@.take(i - 1).push(b@[i - 1]));
    }
    assert(a@.take(i as int) =~= a@);
    assert(b@.take(i as int) =~= b@);
    true
}

/// Encoding a text and decoding it again gives the text back.
pub proof fn law_utf8_round_trip(s: Seq<char>)
    ensures
        decoded(utf8(s)) == Some(s),
{
    vstd::utf8::encode_utf8_valid_utf8(s);
    vstd::utf8::encode_utf8_decode_utf8(s);
}

/// Bytes that decode to a text are the encoding of that text.
pub proof fn law_utf8_decoded_encodes(bytes: Seq<u8>)
    requires
        decoded(bytes) is Some,
    ensures
        utf8(decoded(bytes)->0) == bytes,
{
    vstd::utf8::decode_utf8_encode_utf8(bytes);
}

/// The characters of a text, one by one.
pub fn chars_of(s: &str) -> (r: Vec<char>)
    ensures
        r@ == s@,
{
    let mut r: Vec<char> = Vec::new();
    for c in it: s.chars()
        invariant
            r@ == it.seq().take(it.index() as int),
            it.seq() == s@,
    {
        r.push(c);
    }
    r
}

/// The text made of the characters from `from` up to `to`.
pub fn string_of(chars: &Vec<char>, from: usize, to: usize) -> (r: String)
    requires
        from <= to <= chars@.len(),
    ensures
        r@ == chars@.subrange(from as int, to as int),
{
    let mut r = String::new();
    let mut i: usize = from;
    while i < to
        invariant
            from <= i <= to <= chars@.len(),
            r@ == chars@.subrange(from as int, i as int),
        decreases to - i,
    {
        r.push(chars[i]);
        i = i + 1;
        assert(chars@.subrange(from as int, i as int) =~= chars@.subrange(
            from as int,
            i - 1,
        ).push(chars@[i - 1]));
    }
    r
}

/// The two texts, one behind the other.
pub fn concat(a: &str, b: &str) -> (r: String)
    ensures
        r@ == a@ + b@,
{
    let mut r = a.to_owned();
    r.append(b);
    r
}

// ---------------------------------------------------------------------------
// Decimal numbers
// ---------------------------------------------------------------------------
/// The character for one decimal digit.
pub open spec fn digit_char(d: nat) -> char {
    (48 + d) as char
}

/// The decimal form of `n`, without leading zeros.
pub open spec fn digits(n: nat) -> Seq<char>
    decreases n,
{
    if n < 10 {
        seq![digit_char(n)]
    } else {
        digits(n / 10).push(digit_char(n % 10))
    }
}

/// The decimal form of an integer: a minus sign stands before negative ones.
pub open spec fn signed_digits(n: int) -> Seq<char> {
    if n < 0 {
        seq!['-'] + digits((-n) as nat)
    } else {
        digits(n as nat)
    }
}

/// The decimal form of a number.
pub fn decimal(n: u64) -> (r: String)
    ensures
        r@ == digits(n as nat),
    decreases n,
{
    if n < 10 {
        let mut r = String::new();
        r.push((48u8 + n as u8) as char);
        assert(r@ =~= seq![digit_char(n as nat)]);
        r
    } else {
        let mut r = decimal(n / 10);
        r.push((48u8 + (n % 10) as u8) as char);
        r
    }
}

/// The decimal form of an integer.
pub fn signed_decimal(n: i32) -> (r: String)
    ensures
        r@ == signed_digits(n as int),
{
    if n < 0 {
        let mut r = String::new();
        r.push('-');
        let magnitude: u64 = (-(n as i64)) as u64;
        let rest = decimal(magnitude);
        r.append(rest.as_str());
        assert(r@ =~= seq!['-'] + digits((-n) as nat));
        r
    } else {
        decimal(n as u64)
    }
}

/// Whether a character is one of the ten ASCII digits.
pub open spec fn is_digit(c: char) -> bool {
    '0' <= c <= '9'
}

/// Whether a text is a nonempty run of ASCII digits.
pub open spec fn is_number(s: Seq<char>) -> bool {
    s.len() > 0 && forall|i: int| 0 <= i < s.len() ==> is_digit(#[trigger] s[i])
}

/// The value of a run of ASCII digits, most significant first.
pub open spec fn number_value(s: Seq<char>) -> nat
    decreases s.len(),
{
    if s.len() == 0 {
        0
    } else {
        10 * number_value(s.drop_last()) + (s.last() as u32 - 48) as nat
    }
}

/// The number that a text stands for when it is read as an unsigned integer
/// of at most `max`: digits, with an optional plus sign before them.
pub open spec fn unsigned_value(s: Seq<char>, max: nat) -> Option<nat> {
    let body = if s.len() > 0 && s[0] == '+' {
        s.drop_first()
    } else {
        s
    };
    if is_number(body) && number_value(body) <= max {
        Some(number_value(body))
    } else {
        None
    }
}

/// The number that a text stands for when it is read as a signed integer
/// between `min` and `max`: digits, with an optional sign before them.
pub open spec fn signed_value(s: Seq<char>, min: int, max: int) -> Option<int> {
    let negative = s.len() > 0 && s[0] == '-';
    let body = if s.len() > 0 && (s[0] == '+' || s[0] == '-') {
        s.drop_first()
    } else {
        s
    };
    let value = if negative {
        -(number_value(body) as int)
    } else {
        number_value(body) as int
    };
    if is_number(body) && min <= value <= max {
        Some(value)
    } else {
        None
    }
}

/// Reads the digits from position `from` on.
fn parse_digits(chars: &Vec<char>, from: usize, max: u64) -> (r: Option<u64>)
    requires
        from <= chars@.len(),
        max <= 0x1_0000_0000,
    ensures
        ({
            let body = chars@.subrange(from as int, chars@.len() as int);
            match r {
                Some(n) => is_number(body) && n == number_value(body) && n <= max,
                None => !is_number(body) || number_value(body) > max,
            }
        }),
{
    let ghost body = chars@.subrange(from as int, chars@.len() as int);
    if from == chars.len() {
        return None;
    }
    let mut value: u64 = 0;
    let mut too_big: bool = false;
    let mut i: usize = from;
    while i < chars.len()
        invariant
            from <= i <= chars@.len(),
            max <= 0x1_0000_0000,
            body == chars@.subrange(from as int, chars@.len() as int),
            forall|j: int| 0 <= j < i - from ==> is_digit(#[trigger] body[j]),
            !too_big ==> value == number_value(body.take(i - from)) && value <= max,
            too_big ==> number_value(body.take(i - from)) > max,
        decreases chars@.len() - i,
    {
        let digit: char = chars[i];
        assert(body[i - from] == digit);
        if digit < '0' || digit > '9' {
            assert(!is_digit(body[i - from]));
            return None;
        }
        let c: u32 = digit as u32;
        assert(body.take(i - from + 1).drop_last() =~= body.take(i - from));
        if !too_big {
            value = 10 * value + (c - 48) as u64;
            too_big = value > max;
        }
        i = i + 1;
    }
    assert(body.take(i - from) =~= body);
    if too_big {
        None
    } else {
        Some(value)
    }
}

/// Reads an unsigned integer of at most `max`, the way `str::parse` does.
pub fn parse_unsigned(s: &str, max: u32) -> (r: Option<u32>)
    ensures
        match r {
            Some(n) => unsigned_value(s@, max as nat) == Some(n as nat),
            None => unsigned_value(s@, max as nat) is None,
        },
{
    let chars = chars_of(s);
    let signed = chars.len() > 0 && chars[0] == '+';
    let from: usize = if signed {
        1
    } else {
        0
    };
    proof {
        if signed {
            assert(chars@.subrange(1, chars@.len() as int) =~= s@.drop_first());
        } else {
            assert(chars@.subrange(0, chars@.len() as int) =~= s@);
        }
    }
    match parse_digits(&chars, from, max as u64) {
        Some(n) => Some(n as u32),
        None => None,
    }
}

/// Reads an `i32`, the way `str::parse` does.
pub fn parse_i32(s: &str) -> (r: Option<i32>)
    ensures
        match r {
            Some(n) => signed_value(s@, i32::MIN as int, i32::MAX as int) == Some(n as int),
            None => signed_value(s@, i32::MIN as int, i32::MAX as int) is None,
        },
{
    let chars = chars_of(s);
    let negative = chars.len() > 0 && chars[0] == '-';
    let signed = chars.len() > 0 && (chars[0] == '+' || chars[0] == '-');
    let from: usize = if signed {
        1
    } else {
        0
    };
    proof {
        if signed {
            assert(chars@.subrange(1, chars@.len() as int) =~= s@.drop_first());
        } else {
            assert(chars@.subrange(0, chars@.len() as int) =~= s@);
        }
    }
    let limit: u64 = if negative {
        0x8000_0000
    } else {
        0x7fff_ffff
    };
    match parse_digits(&chars, from, limit) {
        Some(n) => {
            if negative {
                Some((-(n as i64)) as i32)
            } else {
                Some(n as i32)
            }
        },
        None => None,
    }
}

/// The decimal form of a number is a run of digits with that value.
pub proof fn lemma_digits(n: nat)
    ensures
        is_number(digits(n)),
        number_value(digits(n)) == n,
    decreases n,
{
    reveal_with_fuel(number_value, 2);
    if n >= 10 {
        lemma_digits(n / 10);
        let s = digits(n);
        assert(s.drop_last() =~= digits(n / 10));
        assert(s.last() == digit_char(n % 10));
    } else {
        assert(digits(n).drop_last() =~= Seq::<char>::empty());
    }
}

/// Reading the decimal form of a number that is in range gives the number back.
pub proof fn law_unsigned_round_trip(n: nat, max: nat)
    requires
        n <= max,
    ensures
        unsigned_value(digits(n), max) == Some(n),
{
    lemma_digits(n);
    assert(is_digit(digits(n)[0]));
}

/// Reading the decimal form of an integer that is in range gives the integer back.
pub proof fn law_signed_round_trip(n: int, min: int, max: int)
    requires
        min <= n <= max,
    ensures
        signed_value(signed_digits(n), min, max) == Some(n),
{
    let magnitude = (if n < 0 {
        -n
    } else {
        n
    }) as nat;
    lemma_digits(magnitude);
    assert(is_digit(digits(magnitude)[0]));
    if n < 0 {
        assert(signed_digits(n).drop_first() =~= digits(magnitude));
    }
}

/// Different numbers have different decimal forms.
pub proof fn law_digits_injective(a: nat, b: nat)
    requires
        digits(a) == digits(b),
    ensures
        a == b,
{
    lemma_digits(a);
    lemma_digits(b);
}

/// The UTF-8 form of two texts, one behind the other.
pub proof fn law_utf8_concat(a: Seq<char>, b: Seq<char>)
    ensures
        utf8(a + b) == utf8(a) + utf8(b),
    decreases a.len(),
{
    if a.len() == 0 {
        assert(a + b =~= b);
        assert(utf8(a) + utf8(b) =~= utf8(b));
    } else {
        law_utf8_concat(a.drop_first(), b);
        assert((a + b).drop_first() =~= a.drop_first() + b);
        assert(utf8(a + b) =~= utf8(a) + utf8(b));
    }
}

/// The UTF-8 form of an ASCII text has one byte for each character.
pub proof fn lemma_ascii_len(s: Seq<char>)
    requires
        vstd::utf8::is_ascii_chars(s),
    ensures
        utf8(s).len() == s.len(),
{
    vstd::utf8::is_ascii_chars_encode_utf8(s);
}

/// Bytes that are not text stay so behind a text.
pub proof fn lemma_valid_tail(s: Seq<char>, bytes: Seq<u8>)
    requires
        decoded(bytes) is None,
    ensures
        decoded(utf8(s) + bytes) is None,
{
    let all = utf8(s) + bytes;
    let n = utf8(s).len() as int;
    vstd::utf8::encode_utf8_valid_utf8(s);
    assert(all.subrange(0, n) =~= utf8(s));
    assert(all.subrange(n, all.len() as int) =~= bytes);
    vstd::utf8::partial_valid_partial_invalid_utf8(all, n);
}

/// The UTF-8 form of ASCII text is its characters, one byte each.
pub proof fn lemma_ascii_bytes(s: Seq<char>)
    requires
        vstd::utf8::is_ascii_chars(s),
    ensures
        utf8(s) == Seq::new(s.len(), |i: int| s[i] as u8),
{
    vstd::utf8::is_ascii_chars_encode_utf8(s);
    assert(utf8(s) =~= Seq::new(s.len(), |i: int| s[i] as u8));
}

/// The decimal form of a number is short ASCII text.
pub proof fn lemma_digits_short(n: nat)
    ensures
        vstd::utf8::is_ascii_chars(digits(n)),
        utf8(digits(n)).len() == digits(n).len() <= 1 + n / 10,
    decreases n,
{
    lemma_digits(n);
    let s = digits(n);
    assert forall|i: int| 0 <= i < s.len() implies '\0' <= #[trigger] s[i] <= '\u{7f}' by {
        assert(is_digit(s[i]));
    }
    lemma_ascii_len(s);
    if n >= 10 {
        lemma_digits_short(n / 10);
    }
}

// ---------------------------------------------------------------------------
// Trimming
// ---------------------------------------------------------------------------
/// Whether a character has the Unicode property `White_Space`.
pub open spec fn is_whitespace(c: char) -> bool {
    let n = c as u32;
    ||| 0x9 <= n <= 0xd
    ||| n == 0x20
    ||| n == 0x85
    ||| n == 0xa0
    ||| n == 0x1680
    ||| 0x2000 <= n <= 0x200a
    ||| 0x2028 <= n <= 0x2029
    ||| n == 0x202f
    ||| n == 0x205f
    ||| n == 0x3000
}

/// The text without the white space at its end.
pub open spec fn trimmed_end(s: Seq<char>) -> Seq<char>
    decreases s.len(),
{
    if s.len() > 0 && is_whitespace(s.last()) {
        trimmed_end(s.drop_last())
    } else {
        s
    }
}

/// Drops the white space at the end of a text.
pub fn trim_end(s: &str) -> (r: String)
    ensures
        r@ == trimmed_end(s@),
{
    let chars = chars_of(s);
    let mut end: usize = chars.len();
    assert(s@.take(end as int) =~= s@);
    while end > 0
        invariant_except_break
            end <= chars@.len(),
            chars@ == s@,
            trimmed_end(s@) == trimmed_end(s@.take(end as int)),
        ensures
            end <= chars@.len(),
            trimmed_end(s@) == s@.take(end as int),
        decreases end,
    {
        let n: u32 = chars[end - 1] as u32;
        assert(s@.take(end as int).last() == s@[end - 1]);
        let space = (0x9 <= n && n <= 0xd) || n == 0x20 || n == 0x85 || n == 0xa0 || n == 0x1680
            || (0x2000 <= n && n <= 0x200a) || n == 0x2028 || n == 0x2029 || n == 0x202f || n
            == 0x205f || n == 0x3000;
        if !space {
            break;
        }
        assert(s@.take(end as int).drop_last() =~= s@.take(end - 1));
        end = end - 1;
    }
    assert(chars@.subrange(0, end as int) =~= s@.take(end as int));
    string_of(&chars, 0, end)
}

// ---------------------------------------------------------------------------
// Splitting and joining
// ---------------------------------------------------------------------------
/// What each text of a list says.
pub open spec fn texts(v: Seq<String>) -> Seq<Seq<char>> {
    Seq::new(v.len(), |i: int| v[i]@)
}

/// What each byte string of a list holds.
pub open spec fn blobs(v: Seq<Vec<u8>>) -> Seq<Seq<u8>> {
    Seq::new(v.len(), |i: int| v[i]@)
}

/// Where `c` first stands in `s`; the length of `s` where it does not.
pub open spec fn first_index(s: Seq<char>, c: char) -> int
    decreases s.len(),
{
    if s.len() == 0 || s[0] == c {
        0
    } else {
        1 + first_index(s.drop_first(), c)
    }
}

/// The parts of `s` between the places where `c` stands.
pub open spec fn split_at_each(s: Seq<char>, c: char) -> Seq<Seq<char>>
    decreases s.len(),
{
    let i = first_index(s, c);
    if 0 <= i < s.len() {
        seq![s.take(i)] + split_at_each(s.skip(i + 1), c)
    } else {
        seq![s]
    }
}

/// What stands before and behind the first `c` in `s`.
pub open spec fn split_at_first(s: Seq<char>, c: char) -> Option<(Seq<char>, Seq<char>)> {
    let i = first_index(s, c);
    if i < s.len() {
        Some((s.take(i), s.skip(i + 1)))
    } else {
        None
    }
}

/// The parts, with `c` between each two of them.
pub open spec fn joined(parts: Seq<Seq<char>>, c: char) -> Seq<char>
    decreases parts.len(),
{
    if parts.len() == 0 {
        Seq::empty()
    } else if parts.len() == 1 {
        parts[0]
    } else {
        parts[0] + seq![c] + joined(parts.drop_first(), c)
    }
}

/// `first_index` finds a place where `c` stands, and none before it.
pub proof fn lemma_first_index(s: Seq<char>, c: char)
    ensures
        0 <= first_index(s, c) <= s.len(),
        forall|j: int| 0 <= j < first_index(s, c) ==> s[j] != c,
        first_index(s, c) < s.len() ==> s[first_index(s, c)] == c,
    decreases s.len(),
{
    if s.len() > 0 && s[0] != c {
        let t = s.drop_first();
        lemma_first_index(t, c);
        assert forall|j: int| 0 <= j < first_index(s, c) implies s[j] != c by {
            if j > 0 {
                assert(t[j - 1] == s[j]);
            }
        }
    }
}

/// The place of the first `c` is the only one with that property.
pub proof fn lemma_first_index_unique(s: Seq<char>, c: char, i: int)
    requires
        0 <= i <= s.len(),
        forall|j: int| 0 <= j < i ==> s[j] != c,
        i < s.len() ==> s[i] == c,
    ensures
        first_index(s, c) == i,
{
    lemma_first_index(s, c);
}

/// Where `c` first stands from position `from` on.
fn find(chars: &Vec<char>, from: usize, c: char) -> (r: usize)
    requires
        from <= chars@.len(),
    ensures
        from <= r <= chars@.len(),
        r - from == first_index(chars@.skip(from as int), c),
{
    let mut i: usize = from;
    while i < chars.len() && chars[i] != c
        invariant
            from <= i <= chars@.len(),
            forall|j: int| from <= j < i ==> chars@[j] != c,
        decreases chars@.len() - i,
    {
        i = i + 1;
    }
    proof {
        lemma_first_index_unique(chars@.skip(from as int), c, i - from);
    }
    i
}

/// Splits a text at each `c`, the way `str::split` does.
pub fn split(s: &str, c: char) -> (r: Vec<String>)
    ensures
        texts(r@) == split_at_each(s@, c),
{
    let chars = chars_of(s);
    let mut r: Vec<String> = Vec::new();
    let mut start: usize = 0;
    assert(s@.skip(0) =~= s@);
    assert(texts(r@) + split_at_each(s@.skip(0), c) =~= split_at_each(s@, c));
    loop
        invariant
            start <= chars@.len(),
            chars@ == s@,
            texts(r@) + split_at_each(s@.skip(start as int), c) == split_at_each(s@, c),
        decreases chars@.len() - start,
    {
        let end = find(&chars, start, c);
        let ghost rest = s@.skip(start as int);
        let ghost before = r@;
        r.push(string_of(&chars, start, end));
        assert(chars@.subrange(start as int, end as int) =~= rest.take(end - start));
        assert(texts(r@) =~= texts(before).push(rest.take(end - start)));
        if end == chars.len() {
            assert(rest.take(end - start) =~= rest);
            assert(texts(r@) =~= texts(before) + split_at_each(rest, c));
            return r;
        }
        assert(rest.skip(end - start + 1) =~= s@.skip(end + 1));
        assert(texts(r@) + split_at_each(s@.skip(end + 1), c) =~= texts(before) + split_at_each(
            rest,
            c,
        ));
        start = end + 1;
    }
}

/// Splits a text at the first `c`, the way `str::split_once` does.
pub fn split_once(s: &str, c: char) -> (r: Option<(String, String)>)
    ensures
        match r {
            Some((a, b)) => split_at_first(s@, c) == Some((a@, b@)),
            None => split_at_first(s@, c) is None,
        },
{
    let chars = chars_of(s);
    assert(s@.skip(0) =~= s@);
    let i = find(&chars, 0, c);
    if i == chars.len() {
        None
    } else {
        let a = string_of(&chars, 0, i);
        let b = string_of(&chars, i + 1, chars.len());
        assert(a@ =~= s@.take(i as int));
        assert(b@ =~= s@.skip(i + 1));
        Some((a, b))
    }
}

/// Puts `c` between each two of the parts.
pub fn join(parts: &Vec<String>, c: char) -> (r: String)
    ensures
        r@ == joined(texts(parts@), c),
{
    let mut r = String::new();
    if parts.len() == 0 {
        return r;
    }
    let mut i: usize = parts.len() - 1;
    r.append(parts[i].as_str());
    let ghost all = texts(parts@);
    assert(r@ =~= all[i as int]);
    assert(all.skip(i as int) =~= seq![all[i as int]]);
    while i > 0
        invariant
            i < parts@.len(),
            all == texts(parts@),
            r@ == joined(all.skip(i as int), c),
        decreases i,
    {
        let mut longer = parts[i - 1].clone();
        longer.push(c);
        longer.append(r.as_str());
        assert(all.skip(i - 1).drop_first() =~= all.skip(i as int));
        assert(longer@ =~= all[i - 1] + seq![c] + r@);
        r = longer;
        i = i - 1;
    }
    assert(all.skip(0) =~= all);
    r
}

/// The text behind a `c` at its front, the way `str::strip_prefix` gives it.
pub fn strip_prefix(s: &str, c: char) -> (r: Option<String>)
    ensures
        match r {
            Some(rest) => s@.len() > 0 && s@[0] == c && rest@ == s@.drop_first(),
            None => s@.len() == 0 || s@[0] != c,
        },
{
    let chars = chars_of(s);
    if chars.len() > 0 && chars[0] == c {
        let rest = string_of(&chars, 1, chars.len());
        assert(rest@ =~= s@.drop_first());
        Some(rest)
    } else {
        None
    }
}

/// Splitting a text gives at least one part, and no part holds the separator.
pub proof fn law_split_parts(s: Seq<char>, c: char)
    ensures
        split_at_each(s, c).len() > 0,
        forall|i: int|
            0 <= i < split_at_each(s, c).len() ==> !(#[trigger] split_at_each(s, c)[i]).contains(c),
    decreases s.len(),
{
    lemma_first_index(s, c);
    let i = first_index(s, c);
    if i < s.len() {
        law_split_parts(s.skip(i + 1), c);
        let rest = split_at_each(s.skip(i + 1), c);
        assert forall|k: int| 0 <= k < split_at_each(s, c).len() implies !(#[trigger] split_at_each(
            s,
            c,
        )[k]).contains(c) by {
            if k > 0 {
                assert(split_at_each(s, c)[k] == rest[k - 1]);
            }
        }
    }
}

/// Joining the parts of a text gives the text back.
pub proof fn law_join_split(s: Seq<char>, c: char)
    ensures
        joined(split_at_each(s, c), c) == s,
    decreases s.len(),
{
    lemma_first_index(s, c);
    let i = first_index(s, c);
    if i < s.len() {
        let rest = s.skip(i + 1);
        law_join_split(rest, c);
        law_split_parts(rest, c);
        let parts = split_at_each(s, c);
        assert(parts.drop_first() =~= split_at_each(rest, c));
        assert(s =~= s.take(i) + seq![c] + rest);
    }
}

/// Splitting a joined list gives the list back, where it has at least one part
/// and no part holds the separator.
pub proof fn law_split_join(parts: Seq<Seq<char>>, c: char)
    requires
        parts.len() > 0,
        forall|i: int| 0 <= i < parts.len() ==> !(#[trigger] parts[i]).contains(c),
    ensures
        split_at_each(joined(parts, c), c) == parts,
    decreases parts.len(),
{
    let s = joined(parts, c);
    let first = parts[0];
    if parts.len() == 1 {
        assert forall|j: int| 0 <= j < s.len() implies s[j] != c by {
            assert(first.contains(first[j]));
        }
        lemma_first_index_unique(s, c, s.len() as int);
        assert(split_at_each(s, c) =~= parts);
    } else {
        let rest = joined(parts.drop_first(), c);
        assert forall|i: int| 0 <= i < parts.drop_first().len() implies !(
        #[trigger] parts.drop_first()[i]).contains(c) by {
            assert(parts.drop_first()[i] == parts[i + 1]);
        }
        law_split_join(parts.drop_first(), c);
        assert forall|j: int| 0 <= j < first.len() implies s[j] != c by {
            assert(s[j] == first[j]);
            assert(first.contains(first[j]));
        }
        lemma_first_index_unique(s, c, first.len() as int);
        assert(s.take(first.len() as int) =~= first);
        assert(s.skip(first.len() as int + 1) =~= rest);
        assert(split_at_each(s, c) =~= parts);
    }
}

/// What is trimmed off the end of a text is white space, all of it, and nothing
/// else.
pub proof fn law_trimmed_end(s: Seq<char>)
    ensures
        trimmed_end(s).len() <= s.len(),
        s.take(trimmed_end(s).len() as int) == trimmed_end(s),
        forall|i: int| trimmed_end(s).len() <= i < s.len() ==> is_whitespace(#[trigger] s[i]),
        trimmed_end(s).len() > 0 ==> !is_whitespace(trimmed_end(s).last()),
    decreases s.len(),
{
    if s.len() > 0 && is_whitespace(s.last()) {
        let init = s.drop_last();
        law_trimmed_end(init);
        assert(s.take(trimmed_end(s).len() as int) =~= init.take(trimmed_end(s).len() as int));
        assert forall|i: int| trimmed_end(s).len() <= i < s.len() implies is_whitespace(
            #[trigger] s[i],
        ) by {
            if i < init.len() {
                assert(init[i] == s[i]);
            }
        }
    } else {
        assert(s.take(s.len() as int) =~= s);
    }
}

/// Trimming a text that ends in no white space, followed by white space, gives the
/// text back.
pub proof fn law_trim_padding(s: Seq<char>, padding: Seq<char>)
    requires
        s.len() == 0 || !is_whitespace(s.last()),
        forall|i: int| 0 <= i < padding.len() ==> is_whitespace(#[trigger] padding[i]),
    ensures
        trimmed_end(s + padding) == s,
    decreases padding.len(),
{
    if padding.len() > 0 {
        let init = padding.drop_last();
        assert((s + padding).drop_last() =~= s + init);
        assert((s + padding).last() == padding[padding.len() - 1]);
        assert forall|i: int| 0 <= i < init.len() implies is_whitespace(#[trigger] init[i]) by {
            assert(init[i] == padding[i]);
        }
        law_trim_padding(s, init);
    } else {
        assert(s + padding =~= s);
    }
}

/// The decimal form of a number has no zero in front, unless it is zero.
pub proof fn law_no_leading_zero(n: nat)
    ensures
        digits(n).len() > 0,
        n > 0 ==> digits(n)[0] != '0',
        n == 0 ==> digits(n) == seq!['0'],
    decreases n,
{
    if n >= 10 {
        law_no_leading_zero(n / 10);
        assert(digits(n)[0] == digits(n / 10)[0]);
    }
}

/// One more digit makes a number ten times as great, and adds the digit. A zero in
/// front changes nothing.
pub proof fn law_one_more_digit(s: Seq<char>, d: nat)
    requires
        d < 10,
    ensures
        number_value(s.push((48 + d) as char)) == 10 * number_value(s) + d,
        number_value(seq!['0'] + s) == number_value(s),
    decreases s.len(),
{
    assert(s.push((48 + d) as char).drop_last() =~= s);
    if s.len() > 0 {
        law_one_more_digit(s.drop_last(), d);
        assert((seq!['0'] + s).drop_last() =~= seq!['0'] + s.drop_last());
    } else {
        assert((seq!['0'] + s).drop_last() =~= s);
        assert((seq!['0'] + s).last() == '0');
    }
}

/// A text is read as an unsigned integer exactly where it is digits, with or
/// without a plus sign, that stand for a number in range.
pub proof fn law_unsigned(s: Seq<char>, max: nat)
    requires
        s.len() > 0,
        forall|i: int| 0 <= i < s.len() ==> '0' <= #[trigger] s[i] <= '9',
    ensures
        unsigned_value(s, max) == (if number_value(s) <= max {
            Some(number_value(s))
        } else {
            None
        }),
        unsigned_value(seq!['+'] + s, max) == unsigned_value(s, max),
        unsigned_value(seq!['-'] + s, max) is None,
        signed_value(s, 0, max as int) == (match unsigned_value(s, max) {
            Some(n) => Some(n as int),
            None => None,
        }),
        signed_value(seq!['-'] + s, -(max as int), 0) == (match unsigned_value(s, max) {
            Some(n) => Some(-(n as int)),
            None => None,
        }),
{
    assert(s[0] != '+' && s[0] != '-');
    assert((seq!['+'] + s).drop_first() =~= s);
    assert((seq!['-'] + s).drop_first() =~= s);
    assert(is_number(s));
    assert(!is_digit((seq!['-'] + s)[0]));
    assert(!is_number(seq!['-'] + s));
}

/// What is read as an unsigned integer holds nothing but digits behind its sign.
pub proof fn law_unsigned_only(s: Seq<char>, max: nat, i: int)
    requires
        unsigned_value(s, max) is Some,
        0 <= i < s.len(),
    ensures
        '0' <= s[i] <= '9' || (i == 0 && s[0] == '+' && s.len() > 1),
        unsigned_value(s, max)->0 <= max,
{
    if s[0] == '+' {
        let body = s.drop_first();
        if i > 0 {
            assert(body[i - 1] == s[i]);
            assert(is_digit(body[i - 1]));
        }
    } else {
        assert(is_digit(s[i]));
    }
}

/// One more part is joined behind the others.
pub proof fn lemma_joined_push(parts: Seq<Seq<char>>, part: Seq<char>, c: char)
    requires
        parts.len() > 0,
    ensures
        joined(parts.push(part), c) == joined(parts, c) + seq![c] + part,
    decreases parts.len(),
{
    let all = parts.push(part);
    if parts.len() == 1 {
        assert(all.drop_first() =~= seq![part]);
        reveal_with_fuel(joined, 3);
    } else {
        assert(all.drop_first() =~= parts.drop_first().push(part));
        lemma_joined_push(parts.drop_first(), part, c);
        assert(joined(all, c) =~= joined(parts, c) + seq![c] + part);
    }
}

/// A text is split at the first of a character: nothing of it stands before, and
/// there is nothing to split where it does not stand at all.
pub proof fn law_split_first(s: Seq<char>, c: char)
    ensures
        split_at_first(s, c) is None <==> !s.contains(c),
        split_at_first(s, c) matches Some((before, behind)) ==> !before.contains(c) && s == before
            + seq![c] + behind,
{
    lemma_first_index(s, c);
    let i = first_index(s, c);
    if i < s.len() {
        assert(s[i] == c);
        assert(s =~= s.take(i) + seq![c] + s.skip(i + 1));
        if s.take(i).contains(c) {
            let j = choose|j: int| 0 <= j < i && s.take(i)[j] == c;
            assert(s[j] == c);
        }
    } else if s.contains(c) {
        let j = choose|j: int| 0 <= j < s.len() && s[j] == c;
        assert(s[j] != c);
    }
}

/// What a list of texts or of byte strings holds is what each of them holds, in
/// order.
pub proof fn law_lists(v: Seq<String>, b: Seq<Vec<u8>>)
    ensures
        texts(v).len() == v.len(),
        forall|i: int| 0 <= i < v.len() ==> #[trigger] texts(v)[i] == v[i]@,
        blobs(b).len() == b.len(),
        forall|i: int| 0 <= i < b.len() ==> #[trigger] blobs(b)[i] == b[i]@,
{
}

/// White space is what Unicode says it is: these characters and no others.
pub proof fn law_whitespace(c: char)
    ensures
        is_whitespace(c) <==> seq![
            '\t', '\n', '\u{b}', '\u{c}', '\r', ' ', '\u{85}', '\u{a0}', '\u{1680}',
            '\u{2000}', '\u{2001}', '\u{2002}', '\u{2003}', '\u{2004}', '\u{2005}',
            '\u{2006}', '\u{2007}', '\u{2008}', '\u{2009}', '\u{200a}', '\u{2028}',
            '\u{2029}', '\u{202f}', '\u{205f}', '\u{3000}',
        ].contains(c),
{
    let all = seq![
        '\t', '\n', '\u{b}', '\u{c}', '\r', ' ', '\u{85}', '\u{a0}', '\u{1680}',
        '\u{2000}', '\u{2001}', '\u{2002}', '\u{2003}', '\u{2004}', '\u{2005}',
        '\u{2006}', '\u{2007}', '\u{2008}', '\u{2009}', '\u{200a}', '\u{2028}',
        '\u{2029}', '\u{202f}', '\u{205f}', '\u{3000}',
    ];
    assert(all.len() == 25);
    if is_whitespace(c) {
        assert(c == all[0] || c == all[1] || c == all[2] || c == all[3] || c == all[4] || c
            == all[5] || c == all[6] || c == all[7] || c == all[8] || c == all[9] || c == all[10]
            || c == all[11] || c == all[12] || c == all[13] || c == all[14] || c == all[15] || c
            == all[16] || c == all[17] || c == all[18] || c == all[19] || c == all[20] || c
            == all[21] || c == all[22] || c == all[23] || c == all[24]);
    }
}

} // verus!
