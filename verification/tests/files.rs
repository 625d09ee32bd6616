use std::collections::BTreeMap;

use xshim::files::{FileStep, FILE_MODE};
use xshim::launcher::authority::XAuthorityManager;
use xshim::launcher::env_definitions::Display;
use xshim::path::UnixPath;
use xshim::runtime_dir::RuntimeDir;
use xshim::xauthority::cookie::Cookie;
use xshim::xauthority::file::AuthorityFile;
use xshim::xauthority::lock::Lock;

/// What is at which path: what a file holds, or nothing for a directory.
type Files = BTreeMap<String, Option<Vec<u8>>>;

fn path(s: &str) -> UnixPath {
    UnixPath::from_text(s)
}

fn text(p: &UnixPath) -> String {
    String::from_utf8(p.bytes.clone()).unwrap()
}

fn rendered(steps: &[FileStep]) -> Vec<String> {
    steps
        .iter()
        .map(|step| match step {
            FileStep::CreateNew { path } => format!("create {}", text(path)),
            FileStep::Truncate { path } => format!("empty {}", text(path)),
            FileStep::HardLink { from, to } => format!("link {} {}", text(from), text(to)),
            FileStep::Write { path, contents } => {
                format!("write {} {}", text(path), contents.len())
            }
            FileStep::Remove { path } => format!("remove {}", text(path)),
            FileStep::MakeDir { path } => format!("make {}", text(path)),
            FileStep::RemoveDir { path } => format!("clear {}", text(path)),
        })
        .collect()
}

/// Makes one step, if it can be made.
fn made(step: &FileStep, files: &mut Files) -> bool {
    match step {
        FileStep::CreateNew { path } => {
            !files.contains_key(&text(path)) && {
                files.insert(text(path), Some(Vec::new()));
                true
            }
        }
        FileStep::Truncate { path } => files.insert(text(path), Some(Vec::new())) != Some(None),
        FileStep::HardLink { from, to } => {
            !files.contains_key(&text(to)) && {
                let held = files[&text(from)].clone();
                files.insert(text(to), held);
                true
            }
        }
        FileStep::Write { path, contents } => match files.get_mut(&text(path)) {
            Some(Some(held)) => {
                held.extend_from_slice(contents);
                true
            }
            _ => false,
        },
        FileStep::Remove { path } => {
            files.remove(&text(path));
            true
        }
        FileStep::MakeDir { path } => {
            !files.contains_key(&text(path)) && {
                files.insert(text(path), None);
                true
            }
        }
        FileStep::RemoveDir { path } => {
            let dir = text(path);
            files.retain(|p, _| *p != dir && !p.starts_with(&format!("{dir}/")));
            true
        }
    }
}

/// How many steps are made before one fails, or all of them.
fn play(steps: &[FileStep], files: &mut Files) -> usize {
    steps.iter().take_while(|step| made(step, files)).count()
}

fn holding(path: &str, exclusive: bool, locked: bool, contents: &[u8]) -> AuthorityFile {
    let path = UnixPath::from_text(path);
    let mut file = match (exclusive, locked) {
        (true, true) => AuthorityFile::create(&path).unwrap_or_else(|_| panic!("no lock")),
        (true, false) => AuthorityFile::create_unlocked(&path),
        (false, true) => {
            AuthorityFile::open_or_create(&path).unwrap_or_else(|_| panic!("no lock"))
        }
        (false, false) => AuthorityFile::open_or_create_unlocked(&path),
    };
    file.contents = contents.to_vec();
    file
}

#[test]
fn steps_of_a_lock() {
    let lock = Lock::aqquire(&path("/run/a")).unwrap_or_else(|_| panic!("no lock"));
    assert_eq!(rendered(&lock.take()), ["create /run/a-c", "link /run/a-c /run/a-l"]);
    assert_eq!(rendered(&lock.release()), ["remove /run/a-c", "remove /run/a-l"]);
    assert_eq!(FILE_MODE, 0o600);
}

#[test]
fn a_lock_is_held_by_one() {
    let lock = Lock::aqquire(&path("/run/a")).unwrap_or_else(|_| panic!("no lock"));
    let other = Lock::aqquire(&path("/run/a")).unwrap_or_else(|_| panic!("no lock"));
    let mut files = Files::new();
    assert_eq!(play(&lock.take(), &mut files), 2);
    assert_eq!(play(&other.take(), &mut files), 0);
    assert_eq!(play(&lock.release(), &mut files), 2);
    assert!(files.is_empty());
    assert_eq!(play(&other.take(), &mut files), 2);
}

#[test]
fn steps_of_a_file() {
    assert_eq!(
        rendered(&holding("/run/a", true, true, b"xyz").write()),
        [
            "create /run/a", "create /run/a-c", "link /run/a-c /run/a-l", "write /run/a 3",
            "remove /run/a-c", "remove /run/a-l",
        ]
    );
    assert_eq!(
        rendered(&holding("/run/a", false, true, b"xyz").write()),
        [
            "create /run/a-c", "link /run/a-c /run/a-l", "empty /run/a", "write /run/a 3",
            "remove /run/a-c", "remove /run/a-l",
        ]
    );
    assert_eq!(
        rendered(&holding("/run/a", true, false, b"").write()),
        ["create /run/a", "write /run/a 0"]
    );
    assert_eq!(
        rendered(&holding("/run/a", false, false, b"x").write()),
        ["empty /run/a", "write /run/a 1"]
    );
}

#[test]
fn files_that_are_given_up() {
    let removed = ["remove /run/a-c", "remove /run/a-l"];
    let file = holding("/run/a", true, true, b"x");
    assert!(file.abandon(0).is_empty() && file.abandon(2).is_empty());
    assert_eq!(rendered(&file.abandon(3)), removed);
    let file = holding("/run/a", false, true, b"x");
    assert!(file.abandon(1).is_empty());
    assert_eq!(rendered(&file.abandon(2)), removed);
    assert_eq!(rendered(&file.abandon(3)), removed);
    assert!(holding("/run/a", true, false, b"x").abandon(1).is_empty());
    assert!(holding("/run/a", false, false, b"x").abandon(9).is_empty());
}

#[test]
fn a_new_file_is_written_once() {
    let mut files = Files::new();
    assert_eq!(play(&holding("/run/a", true, true, b"one").write(), &mut files), 6);
    let after = files.clone();
    assert_eq!(after, Files::from([("/run/a".to_string(), Some(b"one".to_vec()))]));
    assert_eq!(play(&holding("/run/a", true, true, b"two").write(), &mut files), 0);
    assert_eq!(play(&holding("/run/a", true, false, b"two").write(), &mut files), 0);
    assert_eq!(files, after);
}

#[test]
fn an_old_file_is_replaced() {
    let mut files = Files::from([("/run/a".to_string(), Some(b"older".to_vec()))]);
    assert_eq!(play(&holding("/run/a", false, true, b"new").write(), &mut files), 6);
    assert_eq!(files, Files::from([("/run/a".to_string(), Some(b"new".to_vec()))]));
    files.insert("/run/a-c".to_string(), Some(Vec::new()));
    assert_eq!(play(&holding("/run/a", false, true, b"late").write(), &mut files), 0);
    assert_eq!(files["/run/a"], Some(b"new".to_vec()));
}

fn manager(skip_locks: bool) -> XAuthorityManager {
    XAuthorityManager::new_with(
        RuntimeDir { path: path("/run/s") },
        skip_locks,
        b"desktop".to_vec(),
        Some(Cookie::new([5; 16])),
    )
    .unwrap_or_else(|_| panic!("there is a cookie"))
}

#[test]
fn the_file_of_the_server_is_set_up_once() {
    for skip_locks in [false, true] {
        let m = manager(skip_locks);
        let mut files = Files::from([("/run/s".to_string(), None)]);
        let (at, first) = m.setup_server();
        let steps = first.write();
        assert_eq!(play(&steps, &mut files), steps.len());
        assert_eq!(files.len(), 2);
        assert_eq!(files[&text(&at)], Some(first.contents));
        let after = files.clone();
        assert_eq!(play(&m.setup_server().1.write(), &mut files), 0);
        assert_eq!(files, after);
    }
}

#[test]
fn the_directory_lasts_until_it_is_removed() {
    let mut files = Files::from([("/run/t".to_string(), Some(Vec::new()))]);
    let m = manager(false);
    assert_eq!(play(&[m.runtime_dir.making()], &mut files), 1);
    assert_eq!(play(&[m.runtime_dir.making()], &mut files), 0);
    let (server_at, server) = m.setup_server();
    let (client_at, client) =
        m.setup_client(&Display::from_number(3)).unwrap_or_else(|_| panic!("it fits"));
    assert_eq!(play(&server.write(), &mut files), 6);
    assert_eq!(play(&client.write(), &mut files), 6);
    let dir = m.finish();
    assert_eq!(files["/run/s"], None);
    assert_eq!(files[&text(&server_at)], Some(server.contents));
    assert_eq!(files[&text(&client_at.path)], Some(client.contents));
    assert_eq!(play(&[dir.removing()], &mut files), 1);
    assert_eq!(files, Files::from([("/run/t".to_string(), Some(Vec::new()))]));
}
