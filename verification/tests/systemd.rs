use xshim::command::CommandLine;
use xshim::env::container::{EnvBuf, EnvRaw};
use xshim::env::diff::{Entry, EnvDiff};
use xshim::env::parse::{EnvError, ParseFailure};
use xshim::path::UnixPath;
use xshim::systemd::environment::{entry_push, raw_merge, SystemdEnvironment};
use xshim::systemd::journald::{
    init_journald, journal_socket, log, warn, write_journal_value, write_length_encoded, Journal, JournalError,
    JournalWriter, LogLevel, SendOutcome, SendStep,
};
use xshim::systemd::notify::Notifier;
use xshim::systemd::socket_activation::{
    listen_fd_simple, listen_fds, listen_fds_of, only_fd, ListenError,
};
use xshim::systemd::units::{
    transient_unit, PropertyValue, UnitDefinition, UnitError, UnitMode,
};
use xshim::warn::Warning;

fn env(pairs: &[(&str, &str)]) -> EnvBuf {
    EnvBuf::from_values(
        pairs.iter().map(|(k, v)| (k.to_string(), v.as_bytes().to_vec())).collect(),
    )
}

fn assign(key: &str, value: &[u8]) -> Entry {
    Entry::Assign { key: key.to_string(), value: value.to_vec() }
}

fn strings(list: &[&str]) -> Vec<String> {
    list.iter().map(|s| s.to_string()).collect()
}

#[test]
fn what_the_manager_tells() {
    let mut warnings = Vec::new();
    let mut e = SystemdEnvironment::open(
        &strings(&["A=1", "broken", "B=x=y", "A=2", "C="]),
        &mut warnings,
    );
    assert_eq!(e.raw_get("A"), Some(b"2".to_vec()));
    assert_eq!(e.raw_get("B"), Some(b"x=y".to_vec()));
    assert_eq!(e.raw_get("C"), Some(Vec::new()));
    assert_eq!(warnings.len(), 1);
    assert_eq!(warnings[0].message(), "Skipping broken: not a valid env entry");
    e.update(&strings(&["D=1"]), &mut warnings);
    assert_eq!(e.raw_get("A"), None);
    assert_eq!(e.to_env_diff().len(), 1);
}

#[test]
fn what_the_manager_is_told() {
    let mut warnings = Vec::new();
    let changes = vec![
        assign("A", b"1"),
        Entry::Unset { key: "B".to_string() },
        assign("C", &[0xff]),
        assign("D", b"x y"),
    ];
    let (variables, unsets) = raw_merge(&changes, &mut warnings);
    assert_eq!(variables, ["A=1", "D=x y"]);
    assert_eq!(unsets, ["B"]);
    assert!(matches!(warnings.as_slice(), [Warning::NotText(key)] if key == "C"));
    let mut to = strings(&["x"]);
    entry_push(&mut to, &assign("y", b"1"), &mut warnings);
    assert_eq!(to, ["x", "y=1"]);
}

#[test]
fn what_is_told_comes_back() {
    let mut warnings = Vec::new();
    let (variables, _) = raw_merge(&vec![assign("KEY", "größe=1".as_bytes())], &mut warnings);
    let e = SystemdEnvironment::open(&variables, &mut warnings);
    assert_eq!(e.raw_get("KEY"), Some("größe=1".as_bytes().to_vec()));
    assert!(warnings.is_empty());
}

#[test]
fn levels() {
    assert_eq!(LogLevel::Debug.number(), 0);
    assert_eq!(LogLevel::Informational.number(), 1);
    assert_eq!(LogLevel::Notice.number(), 2);
    assert_eq!(LogLevel::Warning.number(), 3);
    assert_eq!(LogLevel::Error.number(), 4);
    assert_eq!(LogLevel::Critical.number(), 5);
    assert_eq!(LogLevel::Alert.number(), 6);
    assert_eq!(LogLevel::Emergency.number(), 7);
}

#[test]
fn values_in_the_journal() {
    let mut buffer = vec![1];
    write_journal_value(&mut buffer, &b"one line".to_vec());
    assert_eq!(buffer, b"\x01=one line\n");
    let mut buffer = Vec::new();
    write_journal_value(&mut buffer, &b"a\nb".to_vec());
    assert_eq!(buffer, b"\n\x03\0\0\0\0\0\0\0a\nb\n");
    let mut buffer = Vec::new();
    write_length_encoded(&mut buffer, &vec![b'x'; 300]);
    assert_eq!(&buffer[..9], b"\n\x2c\x01\0\0\0\0\0\0");
    assert_eq!(buffer.len(), 1 + 8 + 300 + 1);
    let mut empty = Vec::new();
    write_journal_value(&mut empty, &Vec::new());
    assert_eq!(empty, b"=\n");
}

/// Reads a value the way the journal does.
fn read_value(s: &[u8]) -> (Vec<u8>, Vec<u8>) {
    if s[0] == b'=' {
        let end = s.iter().position(|b| *b == b'\n').unwrap();
        (s[1..end].to_vec(), s[end + 1..].to_vec())
    } else {
        let mut length = [0; 8];
        length.copy_from_slice(&s[1..9]);
        let end = 9 + u64::from_le_bytes(length) as usize;
        assert_eq!(s[end], b'\n');
        (s[9..end].to_vec(), s[end + 1..].to_vec())
    }
}

#[test]
fn values_are_read_back() {
    for value in [&b""[..], b"x", b"\n", b"a=b", b"=\n=", b"x\n\n"] {
        let mut buffer = Vec::new();
        write_journal_value(&mut buffer, &value.to_vec());
        buffer.extend_from_slice(b"PRIORITY=3");
        assert_eq!(read_value(&buffer), (value.to_vec(), b"PRIORITY=3".to_vec()));
    }
}

#[test]
fn messages_to_the_journal() {
    assert_eq!(journal_socket().bytes, b"/run/systemd/journal/socket");
    assert_eq!(JournalWriter::new(None).err(), Some(JournalError::NotConnected));
    let writer = JournalWriter::new(Some(7)).unwrap_or_else(|_| panic!("there is a connection"));
    assert_eq!(writer.fd, 7);
    assert_eq!(writer.log(LogLevel::Warning, "careful"), b"MESSAGE=careful\nPRIORITY=3");
    assert_eq!(
        writer.log(LogLevel::Emergency, "a\n"),
        b"MESSAGE\n\x02\0\0\0\0\0\0\0a\n\nPRIORITY=7"
    );
    assert_eq!(writer.log_line("a line"), b"MESSAGE=a line\nPRIORITY=2");
    assert_eq!(writer.send(SendOutcome::Sent), SendStep::Done);
    assert_eq!(writer.send(SendOutcome::TooLarge), SendStep::SendLarge);
    assert_eq!(writer.send(SendOutcome::Failed), SendStep::GiveUp);
}

#[test]
fn the_journal_is_initialized_once() {
    let mut journal = Journal { writer: None };
    assert_eq!(log(&journal, LogLevel::Notice, "x"), Err(JournalError::NotInitialized));
    assert_eq!(init_journald(&mut journal, None), Err(JournalError::NotConnected));
    assert_eq!(log(&journal, LogLevel::Notice, "x"), Err(JournalError::NotInitialized));
    assert_eq!(init_journald(&mut journal, Some(7)), Ok(()));
    assert_eq!(init_journald(&mut journal, Some(8)), Err(JournalError::AlreadyInitialized));
    assert_eq!(init_journald(&mut journal, None), Err(JournalError::NotConnected));
    assert_eq!(
        log(&journal, LogLevel::Notice, "x"),
        Ok((7, b"MESSAGE=x\nPRIORITY=2".to_vec()))
    );
    assert_eq!(warn(&journal, "x"), Ok((7, b"MESSAGE=x\nPRIORITY=3".to_vec())));
    let none = Journal { writer: None };
    assert_eq!(warn(&none, "x"), Err(JournalError::NotInitialized));
}

#[test]
fn notifications() {
    let notifier = Notifier::from_env(&env(&[("NOTIFY_SOCKET", "/run/systemd/notify")]))
        .unwrap_or_else(|_| panic!("there is a socket"));
    assert_eq!(notifier.socket.bytes, b"/run/systemd/notify");
    assert_eq!(notifier.notify_ready(), b"READY=1");
    assert_eq!(notifier.notify_stopping(), b"STOPPING=1");
    assert_eq!(Notifier::from_env(&env(&[])).err(), Some(EnvError::Missing));
}

#[test]
fn descriptors_for_a_process() {
    let e = env(&[("LISTEN_PID", "42"), ("LISTEN_FDS", "5")]);
    assert_eq!(listen_fds_of(&e, 42), Ok(vec![3, 4, 5]));
    assert_eq!(listen_fds_of(&e, 43), Err(ListenError::OtherProcess));
    assert_eq!(listen_fds_of(&env(&[]), 42), Err(ListenError::NoPid(EnvError::Missing)));
    assert_eq!(
        listen_fds_of(&env(&[("LISTEN_PID", "0")]), 42),
        Err(ListenError::NoPid(EnvError::Parse(ParseFailure::Malformed)))
    );
    assert_eq!(
        listen_fds_of(&env(&[("LISTEN_PID", "42")]), 42),
        Err(ListenError::NoFds(EnvError::Missing))
    );
    let few = env(&[("LISTEN_PID", "42"), ("LISTEN_FDS", "2")]);
    assert_eq!(listen_fds_of(&few, 42), Ok(vec![]));
    assert_eq!(only_fd(&vec![3]), Ok(3));
    assert_eq!(only_fd(&vec![]), Err(ListenError::WrongCount(0)));
    assert_eq!(only_fd(&vec![3, 4]), Err(ListenError::WrongCount(2)));
}

#[test]
fn descriptors_for_this_process() {
    let pid = rustix::process::getpid().as_raw_nonzero().get().to_string();
    let one = env(&[("LISTEN_PID", pid.as_str()), ("LISTEN_FDS", "3")]);
    assert_eq!(listen_fds(&one), Ok(vec![3]));
    assert_eq!(listen_fd_simple(&one), Ok(3));
    let two = env(&[("LISTEN_PID", pid.as_str()), ("LISTEN_FDS", "4")]);
    assert_eq!(listen_fd_simple(&two), Err(ListenError::WrongCount(2)));
    let other = env(&[("LISTEN_PID", "-1"), ("LISTEN_FDS", "3")]);
    assert_eq!(listen_fd_simple(&other), Err(ListenError::OtherProcess));
}

#[test]
fn modes_of_units() {
    assert_eq!(UnitMode::Replace.as_str(), "replace");
    assert_eq!(UnitMode::Fail.as_str(), "fail");
    assert_eq!(UnitMode::Isolate.as_str(), "isolate");
    assert_eq!(UnitMode::IgnoreDependencies.as_str(), "ignore-dependencies");
    assert_eq!(UnitMode::IgnoreRequirements.as_str(), "ignore-requirements");
}

fn listed(properties: &[(String, PropertyValue)], key: &str) -> Option<Vec<String>> {
    properties.iter().find(|(k, _)| k == key).map(|(_, v)| match v {
        PropertyValue::Text(s) => vec![s.clone()],
        PropertyValue::List(list) => list.clone(),
    })
}

#[test]
fn units_of_commands() {
    let mut command = CommandLine::new(UnixPath::from_text("/bin/true"));
    command.apply(&vec![
        assign("A", b"1"),
        Entry::Unset { key: "B".to_string() },
        assign("A", b"2"),
    ]);
    command.current_dir = Some(UnixPath::from_text("/tmp"));
    let definition =
        UnitDefinition::from_command(&command).unwrap_or_else(|_| panic!("all is text"));
    let request = transient_unit("x.service", definition);
    assert_eq!(request.name, "x.service");
    assert_eq!(request.mode, "fail");
    let properties = request.definition.into_properties();
    assert_eq!(properties.len(), 3);
    assert_eq!(listed(&properties, "ENVIRONMENT"), Some(strings(&["A=2"])));
    assert_eq!(listed(&properties, "UNSET_ENVIRONMENT"), Some(strings(&["B"])));
    assert_eq!(listed(&properties, "WorkingDirectory"), Some(strings(&["/tmp"])));
}

#[test]
fn units_that_cannot_be_defined() {
    let mut command = CommandLine::new(UnixPath::from_text("/bin/true"));
    command.current_dir = Some(UnixPath { bytes: vec![0xff] });
    assert_eq!(
        UnitDefinition::from_command(&command).err(),
        Some(UnitError::WorkdirNotText)
    );
    command.apply(&vec![assign("A", &[0xff])]);
    assert_eq!(
        UnitDefinition::from_command(&command).err(),
        Some(UnitError::VariableNotText)
    );
    let mut definition = UnitDefinition::new();
    definition.workdir("/a");
    definition.workdir("/b");
    assert_eq!(
        definition.environment(&vec![assign("A", &[0xff])]),
        Err(UnitError::VariableNotText)
    );
    let properties = definition.into_properties();
    assert_eq!(properties.len(), 1);
    assert_eq!(listed(&properties, "WorkingDirectory"), Some(strings(&["/b"])));
}
