//! Writing to the journal.
use vstd::prelude::*;

use crate::path::UnixPath;
use crate::text;

verus! {

/// Where the journal takes its messages.
pub const JOURNALD_PATH: &'static str = "/run/systemd/journal/socket";

/// How much a message matters.
#[derive(Clone, Copy, PartialEq, Eq, Structural, Debug)]
pub enum LogLevel {
    Debug,
    Informational,
    Notice,
    Warning,
    Error,
    Critical,
    Alert,
    Emergency,
}

/// The number of a level.
pub open spec fn level_number(level: LogLevel) -> u8 {
    match level {
        LogLevel::Debug => 0,
        LogLevel::Informational => 1,
        LogLevel::Notice => 2,
        LogLevel::Warning => 3,
        LogLevel::Error => 4,
        LogLevel::Critical => 5,
        LogLevel::Alert => 6,
        LogLevel::Emergency => 7,
    }
}

impl LogLevel {
    /// The number of the level.
    pub fn number(&self) -> (r: u8)
        ensures
            r == level_number(*self),
    {
        match self {
            LogLevel::Debug => 0,
            LogLevel::Informational => 1,
            LogLevel::Notice => 2,
            LogLevel::Warning => 3,
            LogLevel::Error => 4,
            LogLevel::Critical => 5,
            LogLevel::Alert => 6,
            LogLevel::Emergency => 7,
        }
    }
}

// ---------------------------------------------------------------------------
// Encoding
// ---------------------------------------------------------------------------
/// The byte that ends a line.
pub open spec fn newline() -> u8 {
    10
}

/// The byte between a field and its value.
pub open spec fn equals() -> u8 {
    61
}

/// The `count` least significant bytes of a number, least significant first.
pub open spec fn little_endian(n: nat, count: nat) -> Seq<u8>
    decreases count,
{
    if count == 0 {
        Seq::empty()
    } else {
        seq![(n % 256) as u8] + little_endian(n / 256, (count - 1) as nat)
    }
}

/// A value behind its length.
pub open spec fn length_encoded(value: Seq<u8>) -> Seq<u8> {
    seq![newline()] + little_endian(value.len(), 8) + value + seq![newline()]
}

/// The form of a value: a line, or the value behind its length where it does
/// not fit into a line.
pub open spec fn journal_value(value: Seq<u8>) -> Seq<u8> {
    if value.contains(newline()) {
        length_encoded(value)
    } else {
        seq![equals()] + value + seq![newline()]
    }
}

/// What the journal is sent for a message.
pub open spec fn payload(level: LogLevel, message: Seq<char>) -> Seq<u8> {
    text::utf8("MESSAGE"@) + journal_value(text::utf8(message)) + text::utf8("PRIORITY="@)
        + text::utf8(text::digits(level_number(level) as nat))
}

fn push_all(buffer: &mut Vec<u8>, bytes: &Vec<u8>)
    ensures
        final(buffer)@ == old(buffer)@ + bytes@,
{
    let mut copy = text::copy(bytes);
    buffer.append(&mut copy);
}

/// Writes a value behind its length.
pub fn write_length_encoded(buffer: &mut Vec<u8>, value: &Vec<u8>)
    ensures
        final(buffer)@ == old(buffer)@ + length_encoded(value@),
{
    buffer.push(10);
    let ghost start = buffer@;
    let mut rest: u64 = value.len() as u64;
    let ghost length = value@.len();
    let mut i: usize = 0;
    assert(buffer@ + little_endian(rest as nat, 8) =~= start + little_endian(length, 8));
    while i < 8
        invariant
            i <= 8,
            buffer@ + little_endian(rest as nat, (8 - i) as nat) == start + little_endian(
                length,
                8,
            ),
        decreases 8 - i,
    {
        let ghost before = buffer@;
        let ghost tail = little_endian((rest / 256) as nat, (7 - i) as nat);
        let byte: u8 = (rest % 256) as u8;
        buffer.push(byte);
        assert(before + (seq![byte] + tail) =~= buffer@ + tail);
        rest = rest / 256;
        i = i + 1;
    }
    assert(buffer@ =~= start + little_endian(length, 8));
    push_all(buffer, value);
    buffer.push(10);
    assert(buffer@ =~= old(buffer)@ + length_encoded(value@));
}

/// Whether a value has more than one line.
fn has_newline(value: &Vec<u8>) -> (r: bool)
    ensures
        r == value@.contains(newline()),
{
    let mut i: usize = 0;
    while i < value.len()
        invariant
            i <= value@.len(),
            forall|j: int| 0 <= j < i ==> #[trigger] value@[j] != newline(),
        decreases value@.len() - i,
    {
        if value[i] == 10 {
            assert(value@[i as int] == newline());
            return true;
        }
        i = i + 1;
    }
    false
}

/// Writes a value.
pub fn write_journal_value(buffer: &mut Vec<u8>, value: &Vec<u8>)
    ensures
        final(buffer)@ == old(buffer)@ + journal_value(value@),
{
    if has_newline(value) {
        write_length_encoded(buffer, value);
    } else {
        buffer.push(61);
        push_all(buffer, value);
        buffer.push(10);
        assert(buffer@ =~= old(buffer)@ + journal_value(value@));
    }
}

// ---------------------------------------------------------------------------
// The journal
// ---------------------------------------------------------------------------
/// A connection to the journal.
pub struct JournalWriter {
    /// The descriptor of the connection.
    pub fd: i32,
}

/// Where a connection to the journal leads.
pub fn journal_socket() -> (r: UnixPath)
    ensures
        r@ == text::utf8(JOURNALD_PATH@),
{
    UnixPath::from_text(JOURNALD_PATH)
}

/// How sending a payload went.
#[derive(Clone, Copy, PartialEq, Eq, Structural, Debug)]
pub enum SendOutcome {
    Sent,
    /// The payload is too large for a datagram.
    TooLarge,
    Failed,
}

/// What is to be done after a payload was sent.
#[derive(Clone, Copy, PartialEq, Eq, Structural, Debug)]
pub enum SendStep {
    /// Nothing: the payload has arrived.
    Done,
    /// To put the payload into a sealed file and send that.
    SendLarge,
    /// To give up.
    GiveUp,
}

impl JournalWriter {
    /// The connection to the journal of this host, given the descriptor of a
    /// socket that was connected to it, if one could be.
    pub fn new(connection: Option<i32>) -> (r: Result<Self, JournalError>)
        ensures
            match r {
                Ok(writer) => connection == Some(writer.fd),
                Err(e) => connection is None && e == JournalError::NotConnected,
            },
    {
        match connection {
            Some(fd) => Ok(JournalWriter { fd }),
            None => Err(JournalError::NotConnected),
        }
    }

    /// What is to be done after a payload was sent.
    pub fn send(&self, outcome: SendOutcome) -> (r: SendStep)
        ensures
            r == (match outcome {
                SendOutcome::Sent => SendStep::Done,
                SendOutcome::TooLarge => SendStep::SendLarge,
                SendOutcome::Failed => SendStep::GiveUp,
            }),
    {
        match outcome {
            SendOutcome::Sent => SendStep::Done,
            SendOutcome::TooLarge => SendStep::SendLarge,
            SendOutcome::Failed => SendStep::GiveUp,
        }
    }

    /// What the journal is to be sent for a message.
    pub fn log(&self, level: LogLevel, message: &str) -> (r: Vec<u8>)
        ensures
            r@ == payload(level, message@),
    {
        let mut r = text::bytes_of("MESSAGE");
        let message = text::bytes_of(message);
        write_journal_value(&mut r, &message);
        let mut priority = text::bytes_of("PRIORITY=");
        r.append(&mut priority);
        let number = text::decimal(level.number() as u64);
        let mut number = text::bytes_of(number.as_str());
        r.append(&mut number);
        r
    }

    /// What the journal is to be sent for a line that a child has to say.
    pub fn log_line(&self, line: &str) -> (r: Vec<u8>)
        ensures
            r@ == payload(LogLevel::Notice, line@),
    {
        self.log(LogLevel::Notice, line)
    }
}

/// The journal of this process: nothing, until it is initialized.
pub struct Journal {
    pub writer: Option<JournalWriter>,
}

impl View for Journal {
    /// The descriptor of the connection, if there is one.
    type V = Option<i32>;

    open spec fn view(&self) -> Option<i32> {
        match self.writer {
            Some(writer) => Some(writer.fd),
            None => None,
        }
    }
}

/// Why nothing comes of a use of the journal.
#[derive(Clone, Copy, PartialEq, Eq, Structural, Debug)]
pub enum JournalError {
    NotConnected,
    AlreadyInitialized,
    NotInitialized,
}

/// What comes of initializing a journal, given the connection that was made, if
/// one was.
pub open spec fn init_failure(journal: Option<i32>, connection: Option<i32>) -> Option<
    JournalError,
> {
    if connection is None {
        Some(JournalError::NotConnected)
    } else if journal is Some {
        Some(JournalError::AlreadyInitialized)
    } else {
        None
    }
}

/// The connection of a journal after it was to be initialized.
pub open spec fn after_init(journal: Option<i32>, connection: Option<i32>) -> Option<i32> {
    match journal {
        Some(fd) => Some(fd),
        None => connection,
    }
}

/// Connects the process to the journal, which can be done once. `connection` is
/// the descriptor of a socket that was connected to the journal, if one could
/// be.
pub fn init_journald(journal: &mut Journal, connection: Option<i32>) -> (r: Result<
    (),
    JournalError,
>)
    ensures
        final(journal)@ == after_init(old(journal)@, connection),
        match r {
            Ok(_) => init_failure(old(journal)@, connection) is None,
            Err(e) => {
                &&& init_failure(old(journal)@, connection) == Some(e)
                &&& *final(journal) == *old(journal)
            },
        },
{
    let writer = match JournalWriter::new(connection) {
        Ok(writer) => writer,
        Err(e) => {
            return Err(e);
        },
    };
    match &journal.writer {
        Some(_) => Err(JournalError::AlreadyInitialized),
        None => {
            journal.writer = Some(writer);
            Ok(())
        },
    }
}

/// The descriptor on which the journal of the process is to be sent a message,
/// and what it is to be sent.
pub fn log(journal: &Journal, level: LogLevel, message: &str) -> (r: Result<
    (i32, Vec<u8>),
    JournalError,
>)
    ensures
        match r {
            Ok((fd, sent)) => journal@ == Some(fd) && sent@ == payload(level, message@),
            Err(e) => journal@ is None && e == JournalError::NotInitialized,
        },
{
    match &journal.writer {
        Some(writer) => Ok((writer.fd, writer.log(level, message))),
        None => Err(JournalError::NotInitialized),
    }
}

/// The descriptor on which the journal of the process is to be sent a warning, and
/// what it is to be sent.
pub fn warn(journal: &Journal, message: &str) -> (r: Result<(i32, Vec<u8>), JournalError>)
    ensures
        match r {
            Ok((fd, sent)) => journal@ == Some(fd) && sent@ == payload(
                LogLevel::Warning,
                message@,
            ),
            Err(e) => journal@ is None && e == JournalError::NotInitialized,
        },
{
    log(journal, LogLevel::Warning, message)
}

/// The connection of a journal after it was to be initialized several times.
pub open spec fn after_inits(journal: Option<i32>, connections: Seq<Option<i32>>) -> Option<i32>
    decreases connections.len(),
{
    if connections.len() == 0 {
        journal
    } else {
        after_init(after_inits(journal, connections.drop_last()), connections.last())
    }
}

// ---------------------------------------------------------------------------
// Laws
// ---------------------------------------------------------------------------
/// The number that bytes stand for, least significant first.
pub open spec fn little_endian_value(bytes: Seq<u8>) -> nat
    decreases bytes.len(),
{
    if bytes.len() == 0 {
        0
    } else {
        bytes[0] as nat + 256 * little_endian_value(bytes.drop_first())
    }
}

/// What `256` comes to, `count` times.
pub open spec fn capacity(count: nat) -> nat
    decreases count,
{
    if count == 0 {
        1
    } else {
        256 * capacity((count - 1) as nat)
    }
}

/// Where the first line of `s` ends.
pub open spec fn line_length(s: Seq<u8>) -> int
    decreases s.len(),
{
    if s.len() == 0 || s[0] == newline() {
        0
    } else {
        1 + line_length(s.drop_first())
    }
}

/// The value that stands behind the name of a field, and what follows it.
pub open spec fn read_value(s: Seq<u8>) -> Option<(Seq<u8>, Seq<u8>)> {
    if s.len() == 0 {
        None
    } else if s[0] == equals() {
        let line = s.drop_first();
        let n = line_length(line);
        if n < line.len() {
            Some((line.take(n), line.skip(n + 1)))
        } else {
            None
        }
    } else if s[0] == newline() && s.len() >= 9 {
        let n = little_endian_value(s.subrange(1, 9)) as int;
        if s.len() > 9 + n && s[9 + n] == newline() {
            Some((s.subrange(9, 9 + n), s.skip(10 + n)))
        } else {
            None
        }
    } else {
        None
    }
}

proof fn lemma_little_endian(n: nat, count: nat)
    requires
        n < capacity(count),
    ensures
        little_endian(n, count).len() == count,
        little_endian_value(little_endian(n, count)) == n,
    decreases count,
{
    if count > 0 {
        let rest = (count - 1) as nat;
        assert(n / 256 < capacity(rest)) by (nonlinear_arith)
            requires
                n < 256 * capacity(rest),
        ;
        lemma_little_endian(n / 256, rest);
        assert(little_endian(n, count).drop_first() =~= little_endian(n / 256, rest));
    }
}

proof fn lemma_line_length(line: Seq<u8>, rest: Seq<u8>)
    requires
        !line.contains(newline()),
    ensures
        line_length(line + seq![newline()] + rest) == line.len(),
    decreases line.len(),
{
    let s = line + seq![newline()] + rest;
    if line.len() > 0 {
        assert(line[0] != newline());
        assert(s.drop_first() =~= line.drop_first() + seq![newline()] + rest);
        assert forall|b: u8| line.drop_first().contains(b) implies line.contains(b) by {
            let i = choose|i: int| 0 <= i < line.drop_first().len() && line.drop_first()[i] == b;
            assert(line[i + 1] == b);
        }
        lemma_line_length(line.drop_first(), rest);
    } else {
        assert(s[0] == newline());
    }
}

/// Values can be told apart: whatever a value holds, newlines among it, it is
/// read back as it was, up to what follows it.
pub proof fn law_value_round_trip(value: Seq<u8>, rest: Seq<u8>)
    requires
        value.len() <= u64::MAX,
    ensures
        read_value(journal_value(value) + rest) == Some((value, rest)),
{
    let s = journal_value(value) + rest;
    let n = value.len() as int;
    if value.contains(newline()) {
        reveal_with_fuel(capacity, 9);
        lemma_little_endian(value.len(), 8);
        assert(s.subrange(1, 9) =~= little_endian(value.len(), 8));
        assert(s.subrange(9, 9 + n) =~= value);
        assert(s.skip(10 + n) =~= rest);
        assert(s[9 + n] == newline());
    } else {
        let line = s.drop_first();
        assert(line =~= value + seq![newline()] + rest);
        lemma_line_length(value, rest);
        assert(line.take(n) =~= value);
        assert(line.skip(n + 1) =~= rest);
    }
}

/// Once a journal is initialized, every later attempt fails and the connection
/// stays the one it was.
pub proof fn law_initialized_once(fd: i32, connections: Seq<Option<i32>>, next: Option<i32>)
    ensures
        after_inits(Some(fd), connections) == Some(fd),
        init_failure(after_inits(Some(fd), connections), next) is Some,
    decreases connections.len(),
{
    if connections.len() > 0 {
        law_initialized_once(fd, connections.drop_last(), next);
    }
}

/// However often no connection can be made, the journal stays uninitialized, and
/// the first connection that is made initializes it.
pub proof fn law_failed_connections(connections: Seq<Option<i32>>, fd: i32)
    requires
        forall|i: int| 0 <= i < connections.len() ==> #[trigger] connections[i] is None,
    ensures
        after_inits(None, connections) is None,
        init_failure(after_inits(None, connections), Some(fd)) is None,
        after_init(after_inits(None, connections), Some(fd)) == Some(fd),
    decreases connections.len(),
{
    if connections.len() > 0 {
        let head = connections.drop_last();
        assert forall|i: int| 0 <= i < head.len() implies #[trigger] head[i] is None by {
            assert(head[i] == connections[i]);
        }
        law_failed_connections(head, fd);
        assert(connections[connections.len() - 1] is None);
    }
}

/// The numbers of the levels rise with what is at stake.
pub proof fn law_levels()
    ensures
        level_number(LogLevel::Debug) == 0,
        level_number(LogLevel::Informational) == 1,
        level_number(LogLevel::Notice) == 2,
        level_number(LogLevel::Warning) == 3,
        level_number(LogLevel::Error) == 4,
        level_number(LogLevel::Critical) == 5,
        level_number(LogLevel::Alert) == 6,
        level_number(LogLevel::Emergency) == 7,
{
}

/// A value without a newline stands in a line, behind an equals sign. One with a
/// newline stands behind its length: a newline, eight bytes with the least
/// significant first, the value, and a newline.
pub proof fn law_value_form(value: Seq<u8>)
    requires
        value.len() <= u64::MAX,
    ensures
        ({
            let s = journal_value(value);
            let n = value.len() as int;
            &&& !value.contains(10u8) ==> {
                &&& s.len() == n + 2
                &&& s[0] == 61
                &&& s.subrange(1, n + 1) == value
                &&& s[n + 1] == 10
            }
            &&& value.contains(10u8) ==> {
                &&& s.len() == n + 10
                &&& s[0] == 10
                &&& s[1] + 0x100 * s[2] + 0x1_0000 * s[3] + 0x100_0000 * s[4] + 0x1_0000_0000
                    * s[5] + 0x100_0000_0000 * s[6] + 0x1_0000_0000_0000 * s[7]
                    + 0x100_0000_0000_0000 * s[8] == n
                &&& s.subrange(9, 9 + n) == value
                &&& s[9 + n] == 10
            }
        }),
{
    let s = journal_value(value);
    let n = value.len() as int;
    if value.contains(10u8) {
        reveal_with_fuel(little_endian, 9);
        reveal_with_fuel(capacity, 9);
        let b = little_endian(value.len(), 8);
        assert(s =~= seq![newline()] + b + value + seq![newline()]);
        lemma_little_endian(value.len(), 8);
        assert(b.len() == 8);
        assert(s.subrange(9, 9 + n) =~= value);
        let q1 = value.len() / 256;
        let q2 = q1 / 256;
        let q3 = q2 / 256;
        let q4 = q3 / 256;
        let q5 = q4 / 256;
        let q6 = q5 / 256;
        let q7 = q6 / 256;
        assert(b[0] == value.len() % 256);
        assert(b[1] == q1 % 256);
        assert(b[2] == q2 % 256);
        assert(b[3] == q3 % 256);
        assert(b[4] == q4 % 256);
        assert(b[5] == q5 % 256);
        assert(b[6] == q6 % 256);
        assert(b[7] == q7 % 256);
        assert(q7 < 256);
        assert(forall|i: int| 0 <= i < 8 ==> s[1 + i] == #[trigger] b[i]);
    } else {
        assert(s.subrange(1, n + 1) =~= value);
    }
}

/// What the journal is sent: the message under its name, in its form, and then the
/// number of its level.
pub proof fn law_payload(level: LogLevel, message: Seq<char>)
    ensures
        ({
            let s = payload(level, message);
            let head = text::utf8("MESSAGE"@);
            let value = journal_value(text::utf8(message));
            let n = head.len() + value.len();
            &&& s.take(head.len() as int) == head
            &&& s.subrange(head.len() as int, n as int) == value
            &&& text::decoded(s.skip(n as int)) == Some(
                "PRIORITY="@ + text::digits(level_number(level) as nat),
            )
        }),
{
    let s = payload(level, message);
    let head = text::utf8("MESSAGE"@);
    let value = journal_value(text::utf8(message));
    let n = head.len() + value.len();
    let number = text::digits(level_number(level) as nat);
    text::law_utf8_concat("PRIORITY="@, number);
    text::law_utf8_round_trip("PRIORITY="@ + number);
    assert(s.take(head.len() as int) =~= head);
    assert(s.subrange(head.len() as int, n as int) =~= value);
    assert(s.skip(n as int) =~= text::utf8("PRIORITY="@ + number));
}

} // verus!
