use std::path::Path;

use xshim::path::{EnsureExistsExt, PathMissing, UnixPath};

fn path(s: &str) -> UnixPath {
    UnixPath::from_text(s)
}

fn text_of(p: &UnixPath) -> String {
    String::from_utf8(p.bytes.clone()).unwrap()
}

#[test]
fn joining_paths() {
    for (base, name) in [
        ("/run/user/1000", "Xauthority"),
        ("/run/", "x"),
        ("", "x"),
        ("/home", "/etc"),
        ("a", ""),
        ("/", "b"),
    ] {
        let joined = path(base).join_text(name);
        assert_eq!(text_of(&joined), Path::new(base).join(name).to_str().unwrap());
        assert_eq!(path(base).join(&name.as_bytes().to_vec()).bytes, joined.bytes);
    }
}

#[test]
fn file_names() {
    for p in [
        "/home/u/.Xauthority", "x", "/", "", ".", "..", "/a/..", "/a/.", "/a/./", "a//b//", "./a",
        "/.hidden", "a/...", "/..", "./", "//",
    ] {
        let expected = Path::new(p).file_name().map(|n| n.to_str().unwrap().as_bytes().to_vec());
        assert_eq!(path(p).file_name(), expected, "{p}");
    }
}

#[test]
fn replaced_file_names() {
    for p in ["/home/u/.Xauthority", "x", "a/b/", "/x", "/a/./b", "a//b"] {
        let replaced = path(p).with_file_name(&b"new-c".to_vec());
        let expected = Path::new(p).with_file_name("new-c");
        assert_eq!(
            Path::new(&text_of(&replaced)).components().collect::<Vec<_>>(),
            expected.components().collect::<Vec<_>>(),
            "{p}"
        );
        assert_eq!(replaced.file_name(), Some(b"new-c".to_vec()));
        assert_eq!(replaced.parent().bytes, path(p).parent().bytes);
    }
}

#[test]
fn joined_names_are_file_names() {
    let joined = path("/run/user/1000").join_text("server-authority");
    assert_eq!(joined.file_name(), Some(b"server-authority".to_vec()));
    assert_ne!(joined.bytes, path("/run/user/1000").join_text("client-authority").bytes);
}

#[test]
fn existence() {
    match path("/etc").ensure_exists(true) {
        Ok(p) => assert_eq!(text_of(&p), "/etc"),
        Err(_) => panic!("the path exists"),
    }
    assert_eq!(path("/etc").ensure_exists(false).err(), Some(PathMissing));
    assert_eq!(path("/x").clone().bytes, path("/x").bytes);
}
