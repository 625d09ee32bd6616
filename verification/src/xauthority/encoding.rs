//! The entries of an Xauthority file.
//!
//! The file is a sequence of entries in the following format, with all
//! numbers most significant byte first:
//!
//! ```text
//! 2 bytes    family
//! 2 bytes    address length
//! A bytes    host address
//! 2 bytes    display "number" length
//! S bytes    display "number"
//! 2 bytes    name length
//! N bytes    authorization name
//! 2 bytes    data length
//! D bytes    authorization data
//! ```
use vstd::prelude::*;
use zeroize::Zeroize;

use crate::text;
use crate::xauthority::cookie::Cookie;

verus! {

/// `Zeroize::zeroize` on a byte vector: the bytes become zero and the vector
/// is emptied.
#[verifier::external_body]
fn zeroize_bytes(bytes: &mut Vec<u8>)
    ensures
        final(bytes)@.len() == 0,
    opens_invariants none
    no_unwind
{
    bytes.zeroize();
}

// ---------------------------------------------------------------------------
// Data
// ---------------------------------------------------------------------------
/// The kind of address that an entry is for.
#[derive(Clone, Copy, PartialEq, Eq, Structural, Debug)]
pub enum Family {
    Local,
    Wild,
    Netname,
    Krb5Principal,
    LocalHost,
}

/// The number that stands for a family in the file.
pub open spec fn family_code(family: Family) -> u16 {
    match family {
        Family::Local => 256,
        Family::Wild => 65535,
        Family::Netname => 254,
        Family::Krb5Principal => 253,
        Family::LocalHost => 252,
    }
}

/// The family that a number in the file stands for.
pub open spec fn family_of_code(code: u16) -> Option<Family> {
    if code == 256 {
        Some(Family::Local)
    } else if code == 65535 {
        Some(Family::Wild)
    } else if code == 254 {
        Some(Family::Netname)
    } else if code == 253 {
        Some(Family::Krb5Principal)
    } else if code == 252 {
        Some(Family::LocalHost)
    } else {
        None
    }
}

impl Family {
    /// The number that stands for this family in the file.
    pub fn code(&self) -> (r: u16)
        ensures
            r == family_code(*self),
    {
        match self {
            Family::Local => 256,
            Family::Wild => 65535,
            Family::Netname => 254,
            Family::Krb5Principal => 253,
            Family::LocalHost => 252,
        }
    }

    /// The family that a number in the file stands for.
    pub fn from_code(code: u16) -> (r: Option<Self>)
        ensures
            r == family_of_code(code),
    {
        if code == 256 {
            Some(Family::Local)
        } else if code == 65535 {
            Some(Family::Wild)
        } else if code == 254 {
            Some(Family::Netname)
        } else if code == 253 {
            Some(Family::Krb5Principal)
        } else if code == 252 {
            Some(Family::LocalHost)
        } else {
            None
        }
    }
}

/// The name of a host, as raw bytes.
pub type Hostname = Vec<u8>;

/// One entry of an Xauthority file. Its contents are wiped when it goes out
/// of scope.
pub struct Entry {
    pub family: Family,
    pub address: Hostname,
    pub display: Vec<u8>,
    pub name: Vec<u8>,
    pub data: Vec<u8>,
}

impl Drop for Entry {
    fn drop(&mut self)
        ensures
            final(self).family == old(self).family,
            final(self).address@.len() == 0,
            final(self).display@.len() == 0,
            final(self).name@.len() == 0,
            final(self).data@.len() == 0,
        opens_invariants none
        no_unwind
    {
        self.wipe();
    }
}

impl Entry {
    /// Overwrites what the entry says, and forgets it.
    pub fn wipe(&mut self)
        ensures
            final(self).family == old(self).family,
            final(self).address@.len() == 0,
            final(self).display@.len() == 0,
            final(self).name@.len() == 0,
            final(self).data@.len() == 0,
        opens_invariants none
        no_unwind
    {
        zeroize_bytes(&mut self.address);
        zeroize_bytes(&mut self.display);
        zeroize_bytes(&mut self.name);
        zeroize_bytes(&mut self.data);
    }
}

/// What an entry says.
#[verifier::ext_equal]
pub struct EntryView {
    pub family: Family,
    pub address: Seq<u8>,
    pub display: Seq<u8>,
    pub name: Seq<u8>,
    pub data: Seq<u8>,
}

impl View for Entry {
    type V = EntryView;

    open spec fn view(&self) -> EntryView {
        EntryView {
            family: self.family,
            address: self.address@,
            display: self.display@,
            name: self.name@,
            data: self.data@,
        }
    }
}

/// What each entry of a list says.
pub open spec fn entry_views(entries: Seq<Entry>) -> Seq<EntryView> {
    Seq::new(entries.len(), |i: int| entries[i]@)
}

/// Which connections an entry is for.
pub enum Scope {
    Local(Hostname),
    Any,
}

/// What an entry gives access to.
///
/// 256 cookies or displays are an arbitrary but reasonable limit.
pub enum Target {
    Server { slot: u8 },
    Client { display_number: u8 },
}

/// The number of a target.
pub open spec fn target_number(target: Target) -> u8 {
    match target {
        Target::Server { slot } => slot,
        Target::Client { display_number } => display_number,
    }
}

impl From<Target> for u8 {
    fn from(value: Target) -> (r: u8) {
        match value {
            Target::Server { slot } => slot,
            Target::Client { display_number } => display_number,
        }
    }
}

impl vstd::std_specs::convert::FromSpecImpl<Target> for u8 {
    open spec fn obeys_from_spec() -> bool {
        true
    }

    open spec fn from_spec(value: Target) -> u8 {
        target_number(value)
    }
}

/// The family that a scope stands for.
pub open spec fn scope_family(scope: Scope) -> Family {
    match scope {
        Scope::Local(_) => Family::Local,
        Scope::Any => Family::Wild,
    }
}

/// The address of a scope, with the wildcard as four raw bytes.
pub open spec fn scope_raw_address(scope: Scope) -> Seq<u8> {
    match scope {
        Scope::Local(hostname) => hostname@,
        Scope::Any => seq![127u8, 0u8, 0u8, 2u8],
    }
}

/// The address of a scope, with the wildcard spelled out.
pub open spec fn scope_text_address(scope: Scope) -> Seq<u8> {
    match scope {
        Scope::Local(hostname) => hostname@,
        Scope::Any => text::utf8("127.0.0.2"@),
    }
}

impl Scope {
    /// The family and the address of the scope, with the wildcard as four raw
    /// bytes.
    pub fn into_parts(self) -> (r: (Family, Hostname))
        ensures
            r.0 == scope_family(self),
            r.1@ == scope_raw_address(self),
    {
        match self {
            Scope::Local(hostname) => (Family::Local, hostname),
            Scope::Any => {
                let mut address: Vec<u8> = Vec::new();
                address.push(127);
                address.push(0);
                address.push(0);
                address.push(2);
                assert(address@ =~= seq![127u8, 0u8, 0u8, 2u8]);
                (Family::Wild, address)
            },
        }
    }
}

// ---------------------------------------------------------------------------
// Making entries
// ---------------------------------------------------------------------------
/// The entry that lets the holder of `cookie` connect, with the number of the
/// target as one raw byte.
pub open spec fn byte_entry(cookie: Seq<u8>, scope: Scope, target: Target) -> EntryView {
    EntryView {
        family: scope_family(scope),
        address: scope_raw_address(scope),
        display: seq![target_number(target)],
        name: text::utf8(Cookie::AUTH_NAME@),
        data: cookie,
    }
}

/// The entry that lets the holder of `cookie` connect, with the number of the
/// target spelled out.
pub open spec fn text_entry(cookie: Seq<u8>, scope: Scope, slot: u16) -> EntryView {
    EntryView {
        family: scope_family(scope),
        address: scope_text_address(scope),
        display: text::utf8(text::digits(slot as nat)),
        name: text::utf8(Cookie::AUTH_NAME@),
        data: cookie,
    }
}

impl Entry {
    /// An entry for a cookie, with the number of the target as one raw byte.
    pub fn new(cookie: &Cookie, scope: Scope, target: Target) -> (r: Entry)
        ensures
            r@ == byte_entry(cookie@, scope, target),
    {
        let (family, address) = scope.into_parts();
        let number: u8 = u8::from(target);
        let mut display: Vec<u8> = Vec::new();
        display.push(number);
        assert(display@ =~= seq![number]);
        let (name, data) = cookie.raw_data();
        Entry { family, address, display, name, data }
    }

    /// Starts to put an entry together.
    pub fn builder() -> (r: EntryBuilder)
        ensures
            r.family is None,
            r.address is None,
            r.display is None,
            r.name is None,
            r.data is None,
    {
        EntryBuilder { family: None, address: None, display: None, name: None, data: None }
    }
}

/// An entry that is being put together. Each part is set once.
pub struct EntryBuilder {
    pub family: Option<Family>,
    pub address: Option<Vec<u8>>,
    pub display: Option<Vec<u8>>,
    pub name: Option<Vec<u8>>,
    pub data: Option<Vec<u8>>,
}

impl EntryBuilder {
    /// Whether every part has been set.
    pub open spec fn complete(&self) -> bool {
        &&& self.family is Some
        &&& self.address is Some
        &&& self.display is Some
        &&& self.name is Some
        &&& self.data is Some
    }

    /// Sets the authorization name and data.
    pub fn cookie(self, cookie: Cookie) -> (r: Self)
        requires
            self.name is None,
            self.data is None,
        ensures
            r.family == self.family,
            r.address == self.address,
            r.display == self.display,
            r.name matches Some(name) && name@ == text::utf8(Cookie::AUTH_NAME@),
            r.data matches Some(data) && data@ == cookie@,
    {
        let (name, data) = cookie.raw_data();
        EntryBuilder {
            family: self.family,
            address: self.address,
            display: self.display,
            name: Some(name),
            data: Some(data),
        }
    }

    /// Sets the number, spelled out.
    ///
    /// In server authority files the slot is an arbitrary identifier: the only
    /// requirement is that slots do not repeat in the same file. In client
    /// authority files it is the display number.
    pub fn target(self, slot: u16) -> (r: Self)
        requires
            self.display is None,
        ensures
            r.family == self.family,
            r.address == self.address,
            r.display matches Some(display) && display@ == text::utf8(text::digits(slot as nat)),
            r.name == self.name,
            r.data == self.data,
    {
        let number = text::decimal(slot as u64);
        EntryBuilder {
            family: self.family,
            address: self.address,
            display: Some(text::bytes_of(number.as_str())),
            name: self.name,
            data: self.data,
        }
    }

    /// Sets the family and the address, with the wildcard spelled out.
    pub fn scope(self, scope: Scope) -> (r: Self)
        requires
            self.family is None,
            self.address is None,
        ensures
            r.family == Some(scope_family(scope)),
            r.address matches Some(address) && address@ == scope_text_address(scope),
            r.display == self.display,
            r.name == self.name,
            r.data == self.data,
    {
        let (family, address) = match scope {
            Scope::Local(hostname) => (Family::Local, hostname),
            Scope::Any => (Family::Wild, text::bytes_of("127.0.0.2")),
        };
        EntryBuilder {
            family: Some(family),
            address: Some(address),
            display: self.display,
            name: self.name,
            data: self.data,
        }
    }

    /// The finished entry.
    pub fn build(self) -> (r: Entry)
        requires
            self.complete(),
        ensures
            r@ == (EntryView {
                family: self.family->0,
                address: self.address->0@,
                display: self.display->0@,
                name: self.name->0@,
                data: self.data->0@,
            }),
    {
        Entry {
            family: self.family.unwrap(),
            address: self.address.unwrap(),
            display: self.display.unwrap(),
            name: self.name.unwrap(),
            data: self.data.unwrap(),
        }
    }
}

// ---------------------------------------------------------------------------
// Writing
// ---------------------------------------------------------------------------
/// A field whose length is written before it.
#[derive(Clone, Copy, PartialEq, Eq, Structural, Debug)]
pub enum Field {
    Address,
    Display,
    Name,
    Data,
}

/// Why an entry cannot be written: a field is longer than its length can say.
#[derive(Clone, Copy, PartialEq, Eq, Structural, Debug)]
pub struct EncodeError {
    pub field: Field,
}

/// Two bytes, most significant first.
pub open spec fn be16(n: nat) -> Seq<u8> {
    seq![(n / 256) as u8, (n % 256) as u8]
}

/// A field behind its length.
pub open spec fn block(b: Seq<u8>) -> Seq<u8> {
    be16(b.len()) + b
}

/// The bytes of an entry.
#[verifier::opaque]
pub open spec fn encoded(e: EntryView) -> Seq<u8> {
    be16(family_code(e.family) as nat) + block(e.address) + block(e.display) + block(e.name)
        + block(e.data)
}

/// The first field of an entry that is too long to be written.
pub open spec fn overlong(e: EntryView) -> Option<Field> {
    if e.address.len() > 0xffff {
        Some(Field::Address)
    } else if e.display.len() > 0xffff {
        Some(Field::Display)
    } else if e.name.len() > 0xffff {
        Some(Field::Name)
    } else if e.data.len() > 0xffff {
        Some(Field::Data)
    } else {
        None
    }
}

/// The bytes of a list of entries, one behind the other.
pub open spec fn encoded_all(entries: Seq<EntryView>) -> Seq<u8>
    decreases entries.len(),
{
    if entries.len() == 0 {
        Seq::empty()
    } else {
        encoded(entries[0]) + encoded_all(entries.drop_first())
    }
}

/// The first overlong field in a list of entries.
pub open spec fn overlong_in(entries: Seq<EntryView>) -> Option<Field>
    decreases entries.len(),
{
    if entries.len() == 0 {
        None
    } else {
        match overlong(entries[0]) {
            Some(field) => Some(field),
            None => overlong_in(entries.drop_first()),
        }
    }
}

/// Writes a number of two bytes.
fn write_u16(out: &mut Vec<u8>, n: u16)
    ensures
        final(out)@ == old(out)@ + be16(n as nat),
{
    out.push((n / 256) as u8);
    out.push((n % 256) as u8);
    assert(out@ =~= old(out)@ + be16(n as nat));
}

/// Writes a field behind its length.
fn write_block(out: &mut Vec<u8>, bytes: &Vec<u8>)
    requires
        bytes@.len() <= 0xffff,
    ensures
        final(out)@ == old(out)@ + block(bytes@),
{
    write_u16(out, bytes.len() as u16);
    let mut tail = bytes.clone();
    assert(tail@ =~= bytes@);
    out.append(&mut tail);
    assert(out@ =~= old(out)@ + block(bytes@));
}

impl Entry {
    /// The bytes of the entry.
    pub fn encode(&self) -> (r: Result<Vec<u8>, EncodeError>)
        ensures
            match r {
                Ok(bytes) => overlong(self@) is None && bytes@ == encoded(self@),
                Err(e) => overlong(self@) == Some(e.field),
            },
    {
        if self.address.len() > 0xffff {
            return Err(EncodeError { field: Field::Address });
        }
        if self.display.len() > 0xffff {
            return Err(EncodeError { field: Field::Display });
        }
        if self.name.len() > 0xffff {
            return Err(EncodeError { field: Field::Name });
        }
        if self.data.len() > 0xffff {
            return Err(EncodeError { field: Field::Data });
        }
        let mut out: Vec<u8> = Vec::new();
        write_u16(&mut out, self.family.code());
        write_block(&mut out, &self.address);
        write_block(&mut out, &self.display);
        write_block(&mut out, &self.name);
        write_block(&mut out, &self.data);
        proof {
            reveal(encoded);
        }
        assert(out@ =~= encoded(self@));
        Ok(out)
    }
}

/// The bytes of a file that holds the given entries.
pub fn encode_all(entries: &Vec<Entry>) -> (r: Result<Vec<u8>, EncodeError>)
    ensures
        match r {
            Ok(bytes) => overlong_in(entry_views(entries@)) is None && bytes@ == encoded_all(
                entry_views(entries@),
            ),
            Err(e) => overlong_in(entry_views(entries@)) == Some(e.field),
        },
{
    let ghost all = entry_views(entries@);
    let mut out: Vec<u8> = Vec::new();
    let mut i: usize = 0;
    assert(all.skip(0) =~= all);
    assert(out@ + encoded_all(all) =~= encoded_all(all));
    while i < entries.len()
        invariant
            i <= entries@.len(),
            all == entry_views(entries@),
            out@ + encoded_all(all.skip(i as int)) == encoded_all(all),
            overlong_in(all.skip(i as int)) == overlong_in(all),
        decreases entries@.len() - i,
    {
        let ghost rest = all.skip(i as int);
        assert(rest.drop_first() =~= all.skip(i + 1));
        assert(rest[0] == entries@[i as int]@);
        let mut bytes = match entries[i].encode() {
            Ok(bytes) => bytes,
            Err(e) => {
                return Err(e);
            },
        };
        let ghost before = out@;
        let ghost piece = bytes@;
        out.append(&mut bytes);
        assert(out@ + encoded_all(all.skip(i + 1)) =~= before + encoded_all(rest));
        i = i + 1;
    }
    assert(all.skip(i as int) =~= Seq::<EntryView>::empty());
    assert(out@ =~= encoded_all(all));
    Ok(out)
}

// ---------------------------------------------------------------------------
// Reading
// ---------------------------------------------------------------------------
/// Why bytes are no entry.
#[derive(Clone, Copy, PartialEq, Eq, Structural, Debug)]
pub enum DecodeError {
    /// The bytes end within the entry.
    UnexpectedEnd,
    /// No family has this number.
    UnknownFamily(u16),
}

/// The number that the first two bytes hold.
pub open spec fn u16_at(s: Seq<u8>) -> u16 {
    (s[0] as nat * 256 + s[1] as nat) as u16
}

/// A field at the front of `s`, and what stands behind it.
pub open spec fn read_block(s: Seq<u8>) -> Option<(Seq<u8>, Seq<u8>)> {
    if s.len() < 2 || s.len() < 2 + u16_at(s) {
        None
    } else {
        let n = u16_at(s) as int;
        Some((s.subrange(2, 2 + n), s.skip(2 + n)))
    }
}

/// The entry at the front of `s`, and what stands behind it.
#[verifier::opaque]
pub open spec fn decoded(s: Seq<u8>) -> Result<(EntryView, Seq<u8>), DecodeError> {
    if s.len() < 2 {
        Err(DecodeError::UnexpectedEnd)
    } else {
        match family_of_code(u16_at(s)) {
            None => Err(DecodeError::UnknownFamily(u16_at(s))),
            Some(family) => match read_block(s.skip(2)) {
                None => Err(DecodeError::UnexpectedEnd),
                Some((address, s1)) => match read_block(s1) {
                    None => Err(DecodeError::UnexpectedEnd),
                    Some((display, s2)) => match read_block(s2) {
                        None => Err(DecodeError::UnexpectedEnd),
                        Some((name, s3)) => match read_block(s3) {
                            None => Err(DecodeError::UnexpectedEnd),
                            Some((data, rest)) => Ok(
                                (EntryView { family, address, display, name, data }, rest),
                            ),
                        },
                    },
                },
            },
        }
    }
}

/// Reads the number of two bytes at `from`.
fn read_u16(bytes: &Vec<u8>, from: usize) -> (r: u16)
    requires
        from + 2 <= bytes@.len(),
    ensures
        r == u16_at(bytes@.skip(from as int)),
{
    let total: usize = bytes.len();
    let high: u16 = bytes[from] as u16;
    assert(from + 1 < total);
    let low: u16 = bytes[from + 1] as u16;
    high * 256 + low
}

/// Reads the field at `from`, and tells where it ends.
fn read_field(bytes: &Vec<u8>, from: usize) -> (r: Option<(Vec<u8>, usize)>)
    requires
        from <= bytes@.len(),
    ensures
        match r {
            Some((field, end)) => end <= bytes@.len() && read_block(bytes@.skip(from as int))
                == Some((field@, bytes@.skip(end as int))),
            None => read_block(bytes@.skip(from as int)) is None,
        },
{
    let ghost s = bytes@.skip(from as int);
    if bytes.len() - from < 2 {
        return None;
    }
    let n: usize = read_u16(bytes, from) as usize;
    if bytes.len() - from - 2 < n {
        return None;
    }
    let mut field: Vec<u8> = Vec::new();
    let total: usize = bytes.len();
    let start: usize = from + 2;
    let mut i: usize = 0;
    while i < n
        invariant
            i <= n,
            start + n <= total == bytes@.len(),
            field@ == bytes@.subrange(start as int, start + i),
        decreases n - i,
    {
        field.push(bytes[start + i]);
        i = i + 1;
        assert(bytes@.subrange(start as int, start + i) =~= bytes@.subrange(
            start as int,
            start + i - 1,
        ).push(bytes@[start + i - 1]));
    }
    assert(field@ =~= s.subrange(2, 2 + n as int));
    assert(bytes@.skip(start + n) =~= s.skip(2 + n as int));
    Some((field, start + n))
}

impl Entry {
    /// Reads the entry at `from`, and tells where it ends.
    pub fn decode(bytes: &Vec<u8>, from: usize) -> (r: Result<(Entry, usize), DecodeError>)
        requires
            from <= bytes@.len(),
        ensures
            match r {
                Ok((entry, end)) => end <= bytes@.len() && decoded(bytes@.skip(from as int)) == Ok::<
                    (EntryView, Seq<u8>),
                    DecodeError,
                >((entry@, bytes@.skip(end as int))),
                Err(e) => decoded(bytes@.skip(from as int)) == Err::<
                    (EntryView, Seq<u8>),
                    DecodeError,
                >(e),
            },
    {
        proof {
            reveal(decoded);
        }
        if bytes.len() - from < 2 {
            return Err(DecodeError::UnexpectedEnd);
        }
        let code = read_u16(bytes, from);
        let family = match Family::from_code(code) {
            Some(family) => family,
            None => {
                return Err(DecodeError::UnknownFamily(code));
            },
        };
        assert(bytes@.skip(from as int).skip(2) =~= bytes@.skip(from + 2));
        let (address, a) = match read_field(bytes, from + 2) {
            Some(x) => x,
            None => {
                return Err(DecodeError::UnexpectedEnd);
            },
        };
        let (display, b) = match read_field(bytes, a) {
            Some(x) => x,
            None => {
                return Err(DecodeError::UnexpectedEnd);
            },
        };
        let (name, c) = match read_field(bytes, b) {
            Some(x) => x,
            None => {
                return Err(DecodeError::UnexpectedEnd);
            },
        };
        let (data, d) = match read_field(bytes, c) {
            Some(x) => x,
            None => {
                return Err(DecodeError::UnexpectedEnd);
            },
        };
        Ok((Entry { family, address, display, name, data }, d))
    }
}

// ---------------------------------------------------------------------------
// Laws
// ---------------------------------------------------------------------------
/// Every entry of the file at hand, in order; `None` where the bytes are not a
/// sequence of entries.
pub open spec fn decoded_all(s: Seq<u8>) -> Option<Seq<EntryView>>
    decreases s.len(),
{
    if s.len() == 0 {
        Some(Seq::empty())
    } else {
        match decoded(s) {
            Ok((e, rest)) => if rest.len() < s.len() {
                match decoded_all(rest) {
                    Some(es) => Some(seq![e] + es),
                    None => None,
                }
            } else {
                None
            },
            Err(_) => None,
        }
    }
}

/// A family and its number stand for each other.
pub proof fn law_family_round_trip(family: Family, code: u16)
    ensures
        family_of_code(family_code(family)) == Some(family),
        family_of_code(code) matches Some(f) ==> family_code(f) == code,
{
}

proof fn lemma_be16(n: nat, rest: Seq<u8>)
    requires
        n <= 0xffff,
    ensures
        u16_at(be16(n) + rest) == n,
        (be16(n) + rest).skip(2) == rest,
{
    assert((be16(n) + rest).skip(2) =~= rest);
}

proof fn lemma_be16_back(s: Seq<u8>)
    requires
        s.len() >= 2,
    ensures
        be16(u16_at(s) as nat) + s.skip(2) == s,
{
    assert(be16(u16_at(s) as nat) + s.skip(2) =~= s);
}

proof fn lemma_block(b: Seq<u8>, rest: Seq<u8>)
    requires
        b.len() <= 0xffff,
    ensures
        read_block(block(b) + rest) == Some((b, rest)),
{
    let s = block(b) + rest;
    assert(s =~= be16(b.len()) + (b + rest));
    lemma_be16(b.len(), b + rest);
    assert(s.subrange(2, 2 + b.len() as int) =~= b);
    assert(s.skip(2 + b.len() as int) =~= rest);
}

proof fn lemma_block_back(s: Seq<u8>)
    requires
        read_block(s) is Some,
    ensures
        read_block(s) matches Some((b, rest)) && b.len() <= 0xffff && block(b) + rest == s
            && rest.len() + 2 + b.len() == s.len(),
{
    lemma_be16_back(s);
    let n = u16_at(s) as int;
    let b = s.subrange(2, 2 + n);
    let rest = s.skip(2 + n);
    assert(b + rest =~= s.skip(2));
    assert(block(b) + rest =~= be16(n as nat) + (b + rest));
}

proof fn lemma_concat(a: Seq<u8>, b: Seq<u8>, c: Seq<u8>, d: Seq<u8>, e: Seq<u8>, rest: Seq<u8>)
    ensures
        a + b + c + d + e + rest == a + (b + (c + (d + (e + rest)))),
{
    assert(a + b + c + d + e + rest =~= a + (b + (c + (d + (e + rest)))));
}

/// What a read gives back of a write: an entry that can be written is read
/// back as it was, whatever stands behind it.
pub proof fn law_entry_round_trip(e: EntryView, rest: Seq<u8>)
    requires
        overlong(e) is None,
    ensures
        decoded(encoded(e) + rest) == Ok::<(EntryView, Seq<u8>), DecodeError>((e, rest)),
{
    reveal(encoded);
    reveal(decoded);
    let s = encoded(e) + rest;
    let after_data = rest;
    let after_name = block(e.data) + after_data;
    let after_display = block(e.name) + after_name;
    let after_address = block(e.display) + after_display;
    let after_family = block(e.address) + after_address;
    let code = family_code(e.family) as nat;
    lemma_concat(
        be16(code),
        block(e.address),
        block(e.display),
        block(e.name),
        block(e.data),
        rest,
    );
    lemma_be16(code, after_family);
    law_family_round_trip(e.family, 0);
    lemma_block(e.address, after_address);
    lemma_block(e.display, after_display);
    lemma_block(e.name, after_name);
    lemma_block(e.data, after_data);
}

/// What is read as an entry is what writing that entry gives: no two byte
/// strings stand for the same entry.
pub proof fn law_entry_canonical(s: Seq<u8>)
    requires
        decoded(s) is Ok,
    ensures
        decoded(s) matches Ok((e, rest)) && overlong(e) is None && encoded(e) + rest == s,
{
    reveal(encoded);
    reveal(decoded);
    lemma_be16_back(s);
    law_family_round_trip(Family::Local, u16_at(s));
    let (e, rest) = decoded(s)->Ok_0;
    let s0 = s.skip(2);
    lemma_block_back(s0);
    let s1 = (read_block(s0)->0).1;
    lemma_block_back(s1);
    let s2 = (read_block(s1)->0).1;
    lemma_block_back(s2);
    let s3 = (read_block(s2)->0).1;
    lemma_block_back(s3);
    lemma_concat(
        be16(u16_at(s) as nat),
        block(e.address),
        block(e.display),
        block(e.name),
        block(e.data),
        rest,
    );
}

/// A file that was written from a list of entries holds exactly those entries,
/// in order.
pub proof fn law_file_round_trip(entries: Seq<EntryView>)
    requires
        overlong_in(entries) is None,
    ensures
        decoded_all(encoded_all(entries)) == Some(entries),
    decreases entries.len(),
{
    if entries.len() > 0 {
        let first = entries[0];
        let others = entries.drop_first();
        law_file_round_trip(others);
        law_entry_round_trip(first, encoded_all(others));
        law_encoded_len(first);
        assert(seq![first] + others =~= entries);
    } else {
        assert(decoded_all(Seq::<u8>::empty())->0 =~= entries);
    }
}

/// How long the bytes of an entry are.
pub proof fn law_encoded_len(e: EntryView)
    ensures
        encoded(e).len() == 10 + e.address.len() + e.display.len() + e.name.len() + e.data.len(),
{
    reveal(encoded);
}

/// Where everything stands in the bytes of an entry that can be written: the
/// number of the family, then address, display, name and data, each behind its
/// length. All numbers are two bytes, most significant first.
pub proof fn law_layout(e: EntryView)
    requires
        e.address.len() <= 0xffff,
        e.display.len() <= 0xffff,
        e.name.len() <= 0xffff,
        e.data.len() <= 0xffff,
    ensures
        ({
            let s = encoded(e);
            let a = 2 + e.address.len() as int;
            let b = a + 2 + e.display.len() as int;
            let c = b + 2 + e.name.len() as int;
            let d = c + 2 + e.data.len() as int;
            &&& s.len() == d + 2
            &&& s[0] == (match e.family {
                Family::Local => 1u8,
                Family::Wild => 255u8,
                Family::Netname => 0u8,
                Family::Krb5Principal => 0u8,
                Family::LocalHost => 0u8,
            })
            &&& s[1] == (match e.family {
                Family::Local => 0u8,
                Family::Wild => 255u8,
                Family::Netname => 254u8,
                Family::Krb5Principal => 253u8,
                Family::LocalHost => 252u8,
            })
            &&& s[2] * 256 + s[3] == e.address.len()
            &&& s.subrange(4, 2 + a) == e.address
            &&& s[2 + a] * 256 + s[3 + a] == e.display.len()
            &&& s.subrange(4 + a, 2 + b) == e.display
            &&& s[2 + b] * 256 + s[3 + b] == e.name.len()
            &&& s.subrange(4 + b, 2 + c) == e.name
            &&& s[2 + c] * 256 + s[3 + c] == e.data.len()
            &&& s.subrange(4 + c, 2 + d) == e.data
        }),
{
    reveal(encoded);
    let s = encoded(e);
    let a = 2 + e.address.len() as int;
    let b = a + 2 + e.display.len() as int;
    let c = b + 2 + e.name.len() as int;
    let d = c + 2 + e.data.len() as int;
    assert(s.subrange(4, 2 + a) =~= e.address);
    assert(s.subrange(4 + a, 2 + b) =~= e.display);
    assert(s.subrange(4 + b, 2 + c) =~= e.name);
    assert(s.subrange(4 + c, 2 + d) =~= e.data);
}

/// An entry can be written unless one of its fields is longer than two bytes can
/// say, and the first such field is the one that is named.
pub proof fn law_overlong(e: EntryView)
    ensures
        overlong(e) is None <==> e.address.len() < 65536 && e.display.len() < 65536
            && e.name.len() < 65536 && e.data.len() < 65536,
        overlong(e) == Some(Field::Address) <==> e.address.len() >= 65536,
        overlong(e) == Some(Field::Display) <==> e.address.len() < 65536 && e.display.len()
            >= 65536,
        overlong(e) == Some(Field::Name) <==> e.address.len() < 65536 && e.display.len() < 65536
            && e.name.len() >= 65536,
        overlong(e) == Some(Field::Data) <==> e.address.len() < 65536 && e.display.len() < 65536
            && e.name.len() < 65536 && e.data.len() >= 65536,
{
}

/// Two lists of entries are written as one after the other, and one entry as it
/// is. The first entry that cannot be written is what stops a list.
pub proof fn law_encoded_concat(a: Seq<EntryView>, b: Seq<EntryView>, e: EntryView)
    ensures
        encoded_all(a + b) == encoded_all(a) + encoded_all(b),
        encoded_all(seq![e]) == encoded(e),
        overlong_in(a + b) == (match overlong_in(a) {
            Some(field) => Some(field),
            None => overlong_in(b),
        }),
        overlong_in(seq![e]) == overlong(e),
    decreases a.len(),
{
    reveal_with_fuel(encoded_all, 2);
    reveal_with_fuel(overlong_in, 2);
    assert(seq![e].drop_first() =~= Seq::<EntryView>::empty());
    assert(encoded_all(seq![e]) =~= encoded(e));
    if a.len() == 0 {
        assert(a + b =~= b);
        assert(encoded_all(a) + encoded_all(b) =~= encoded_all(b));
    } else {
        assert((a + b).drop_first() =~= a.drop_first() + b);
        law_encoded_concat(a.drop_first(), b, e);
        assert(encoded_all(a + b) =~= encoded_all(a) + encoded_all(b));
    }
}

/// Bytes are read as an entry exactly where they start with the bytes of an entry
/// that can be written, and it is that entry.
pub proof fn law_decodes_what_was_encoded(s: Seq<u8>, e: EntryView, rest: Seq<u8>)
    ensures
        decoded(s) == Ok::<(EntryView, Seq<u8>), DecodeError>((e, rest)) <==> overlong(e) is None
            && s == encoded(e) + rest,
{
    if decoded(s) is Ok {
        law_entry_canonical(s);
    }
    if overlong(e) is None {
        law_entry_round_trip(e, rest);
    }
}

/// A number that stands for no family is told as it is; everything else that is
/// no entry ends too early.
pub proof fn law_decode_errors(s: Seq<u8>)
    ensures
        ({
            let code = s[0] * 256 + s[1];
            let known = code == 256 || code == 65535 || code == 254 || code == 253 || code == 252;
            &&& s.len() >= 2 && !known ==> decoded(s) == Err::<
                (EntryView, Seq<u8>),
                DecodeError,
            >(DecodeError::UnknownFamily(code as u16))
            &&& decoded(s) is Err && (s.len() < 2 || known) ==> decoded(s) == Err::<
                (EntryView, Seq<u8>),
                DecodeError,
            >(DecodeError::UnexpectedEnd)
        }),
{
    reveal(decoded);
}

/// An entry for a cookie holds the cookie behind the name of the method, for
/// connections from the given host or from anywhere, and with the number of its
/// target: as one raw byte, or spelled out.
pub proof fn law_entry_parts(cookie: Seq<u8>, scope: Scope, target: Target, slot: u16)
    ensures
        ({
            let raw = byte_entry(cookie, scope, target);
            let spelled = text_entry(cookie, scope, slot);
            let method = seq![
                0x4du8, 0x49u8, 0x54u8, 0x2du8, 0x4du8, 0x41u8, 0x47u8, 0x49u8, 0x43u8,
                0x2du8, 0x43u8, 0x4fu8, 0x4fu8, 0x4bu8, 0x49u8, 0x45u8, 0x2du8, 0x31u8,
            ];
            &&& raw.name == method && raw.data == cookie
            &&& spelled.name == method && spelled.data == cookie
            &&& raw.display.len() == 1
            &&& target matches Target::Server { slot } ==> raw.display[0] == slot
            &&& target matches Target::Client { display_number } ==> raw.display[0]
                == display_number
            &&& text::decoded(spelled.display) == Some(text::digits(slot as nat))
            &&& scope matches Scope::Local(host) ==> raw.family == Family::Local && raw.address
                == host@ && spelled.family == Family::Local && spelled.address == host@
            &&& scope is Any ==> raw.family == Family::Wild && raw.address == seq![
                127u8,
                0u8,
                0u8,
                2u8,
            ] && spelled.family == Family::Wild && text::decoded(spelled.address) == Some(
                "127.0.0.2"@,
            )
        }),
{
    reveal_strlit("MIT-MAGIC-COOKIE-1");
    text::lemma_ascii_bytes("MIT-MAGIC-COOKIE-1"@);
    let method = seq![
        0x4du8, 0x49u8, 0x54u8, 0x2du8, 0x4du8, 0x41u8, 0x47u8, 0x49u8, 0x43u8, 0x2du8, 0x43u8,
        0x4fu8, 0x4fu8, 0x4bu8, 0x49u8, 0x45u8, 0x2du8, 0x31u8,
    ];
    assert(text::utf8(Cookie::AUTH_NAME@) =~= method);
    text::law_utf8_round_trip(text::digits(slot as nat));
    text::law_utf8_round_trip("127.0.0.2"@);
}

/// What a list of entries says is what each of them says, in order.
pub proof fn law_entry_views(entries: Seq<Entry>)
    ensures
        entry_views(entries).len() == entries.len(),
        forall|i: int|
            0 <= i < entries.len() ==> {
                &&& entry_views(entries)[i].family == (#[trigger] entries[i]).family
                &&& entry_views(entries)[i].address == entries[i].address@
                &&& entry_views(entries)[i].display == entries[i].display@
                &&& entry_views(entries)[i].name == entries[i].name@
                &&& entry_views(entries)[i].data == entries[i].data@
            },
{
}

} // verus!
