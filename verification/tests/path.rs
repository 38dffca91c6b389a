use shell_process::path::{ends_with_name, extension, join, parent, without_extension};
use std::path::{Path, PathBuf};

const ALPHABET: [u8; 5] = [b'a', b'.', b'/', b'e', b'x'];

/// All strings over the alphabet with `len` bytes.
fn strings(len: usize) -> Vec<String> {
    let mut all = vec![String::new()];
    for _ in 0..len {
        let mut longer = Vec::new();
        for s in &all {
            for b in ALPHABET {
                let mut t = s.clone();
                t.push(b as char);
                longer.push(t);
            }
        }
        all = longer;
    }
    all
}

fn bytes(path: &Path) -> Vec<u8> {
    path.as_os_str().as_encoded_bytes().to_vec()
}

#[test]
fn parent_agrees_with_std() {
    for len in 0..7 {
        for s in strings(len) {
            assert_eq!(
                parent(s.as_bytes()),
                Path::new(&s).parent().map(bytes),
                "parent of {s:?}"
            );
        }
    }
}

#[test]
fn extension_agrees_with_std() {
    for len in 0..7 {
        for s in strings(len) {
            assert_eq!(
                extension(s.as_bytes()),
                Path::new(&s).extension().map(|e| e.as_encoded_bytes().to_vec()),
                "extension of {s:?}"
            );
        }
    }
}

#[test]
fn without_extension_agrees_with_std() {
    for len in 0..7 {
        for s in strings(len) {
            if Path::new(&s).extension().is_some() {
                let mut path = PathBuf::from(&s);
                path.set_extension("");
                assert_eq!(without_extension(s.as_bytes()), bytes(&path), "stem of {s:?}");
            } else {
                assert_eq!(without_extension(s.as_bytes()), s.as_bytes());
            }
        }
    }
}

#[test]
fn ends_with_name_agrees_with_std() {
    for len in 0..7 {
        for s in strings(len) {
            for name in ["a", "ae", "..", "x.a"] {
                assert_eq!(
                    ends_with_name(s.as_bytes(), name.as_bytes()),
                    Path::new(&s).ends_with(name),
                    "{s:?} and {name:?}"
                );
            }
        }
    }
}

#[test]
fn join_agrees_with_std() {
    for len in 0..4 {
        for base in strings(len) {
            for tail in strings(3).into_iter().chain(strings(0)).chain(strings(1)) {
                assert_eq!(
                    join(base.as_bytes(), tail.as_bytes()),
                    bytes(&Path::new(&base).join(&tail)),
                    "{base:?} and {tail:?}"
                );
            }
        }
    }
}

#[test]
fn parents_of_ordinary_paths() {
    assert_eq!(parent(b"/usr/lib//x/./app"), Some(b"/usr/lib//x".to_vec()));
    assert_eq!(parent(b"/app"), Some(b"/".to_vec()));
    assert_eq!(parent(b"app"), Some(b"".to_vec()));
    assert_eq!(parent(b"./app"), Some(b".".to_vec()));
    assert_eq!(parent(b"."), Some(b"".to_vec()));
    assert_eq!(parent(b"/"), None);
    assert_eq!(parent(b""), None);
}

#[test]
fn joined_names_follow_the_base() {
    assert_eq!(join(b"/opt", b"bin/app"), b"/opt/bin/app");
    assert_eq!(join(b"/opt/", b"bin/app"), b"/opt/bin/app");
    assert_eq!(join(b"/opt", b"/bin/app"), b"/bin/app");
    assert_eq!(join(b"", b"app"), b"app");
}

#[test]
fn an_added_extension_is_cut_off_again() {
    assert_eq!(extension(b"/opt/my.app.exe"), Some(b"exe".to_vec()));
    assert_eq!(without_extension(b"/opt/my.app.exe"), b"/opt/my.app");
    assert_eq!(extension(b"/opt/.exe"), None);
    // A lone `.` with an empty extension is `..`, which has none.
    assert_eq!(extension(b".."), None);
}

#[test]
fn the_base_survives_the_cut() {
    assert_eq!(without_extension(&join(b"/opt/x.exe", b"a.exe/")), b"/opt/x.exe/a");
}
