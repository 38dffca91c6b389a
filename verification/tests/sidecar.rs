use shell_process::command::Command;
use shell_process::error::Error;
use shell_process::platform::Platform;
use shell_process::sidecar::{pick_base_dir, relative_command_path, windows_command_path};
use std::path::{Path, PathBuf};
use tauri_utils::platform;

fn bytes(path: &Path) -> Vec<u8> {
    path.as_os_str().as_encoded_bytes().to_vec()
}

#[test]
fn relative_command_path_resolves() {
    // A test executable stands in `deps`.
    let exe = platform::current_exe().unwrap();
    let exe = exe.parent().unwrap().join("deps").join(exe.file_name().unwrap());
    let cwd_parent = exe
        .parent()
        .unwrap()
        .parent() // Go up once more to get out of the "deps" directory
        .unwrap()
        .to_owned();
    assert_eq!(
        relative_command_path(&bytes(&exe), b"Tauri.Example").unwrap(),
        bytes(&cwd_parent.join("Tauri.Example"))
    );
    assert_eq!(
        relative_command_path(&bytes(&exe), b"Tauri.Example.exe").unwrap(),
        bytes(&cwd_parent.join("Tauri.Example"))
    );
}

/// The same resolution, with std's paths.
fn resolve_with_std(exe: &str, command: &str) -> Option<Vec<u8>> {
    let exe_path = PathBuf::from(exe);
    let exe_dir = exe_path.parent()?;
    let base_dir = if exe_dir.ends_with("deps") {
        exe_dir.parent().unwrap_or(exe_dir)
    } else {
        exe_dir
    };
    let mut command_path = base_dir.join(command);
    if command_path.extension().is_some_and(|ext| ext == "exe") {
        command_path.set_extension("");
    }
    Some(bytes(&command_path))
}

#[test]
fn resolution_agrees_with_std() {
    let exes = [
        "", "/", "/app", "app", "./app", "deps/app", "/deps/app", "/t/deps/app", "/t/deps/./app",
        "/t/deps//app/", "/t/xdeps/app", "/t/deps/../app", "deps", "..", "../app", "./deps/app",
        "/t.exe/app", "//app", "/t/deps/deps/app",
    ];
    let commands = [
        "", ".", "..", "a", "a.exe", "a.b.exe", ".exe", "..exe", "...exe", "a.exe/", "a.exe/.",
        "/bin/a", "/bin/a.exe", "b/a.exe", "b.exe/a", "a.EXE", "a.exe.exe", "./a.exe", "a.", "exe",
    ];
    for exe in exes {
        for command in commands {
            assert_eq!(
                relative_command_path(exe.as_bytes(), command.as_bytes()).ok(),
                resolve_with_std(exe, command),
                "{command:?} beside {exe:?}"
            );
        }
    }
}

#[test]
fn an_executable_without_parent_is_an_error() {
    assert_eq!(relative_command_path(b"/", b"a"), Err(Error::CurrentExeHasNoParent));
    assert_eq!(relative_command_path(b"", b"a"), Err(Error::CurrentExeHasNoParent));
    assert!(matches!(
        Command::new_sidecar(b"/", b"a"),
        Err(Error::CurrentExeHasNoParent)
    ));
}

#[test]
fn a_sidecar_is_a_command_of_its_path() {
    let parts = Command::new_sidecar(b"/opt/deps/app", b"tool.exe").unwrap().into_parts();
    assert_eq!(parts.program, b"/opt/tool");
    let plain = Command::new(b"/opt/tool", Platform::Unix).into_parts();
    assert_eq!(parts.stdout, plain.stdout);
}

#[test]
fn windows_adds_exe_once() {
    assert_eq!(windows_command_path(b"C:\\Tauri.Example".to_vec(), Some(b"Example")), b"C:\\Tauri.Example.exe");
    assert_eq!(windows_command_path(b"C:\\Tauri.Example.exe".to_vec(), Some(b"exe")), b"C:\\Tauri.Example.exe");
    assert_eq!(windows_command_path(b"C:\\tool".to_vec(), None), b"C:\\tool.exe");
    assert_eq!(windows_command_path(b"C:\\tool.EXE".to_vec(), Some(b"EXE")), b"C:\\tool.EXE.exe");
}

#[test]
fn the_base_dir_is_above_deps() {
    assert_eq!(pick_base_dir("a/deps", true, Some("a")), "a");
    assert_eq!(pick_base_dir("deps", true, None), "deps");
    assert_eq!(pick_base_dir("a/b", false, Some("a")), "a/b");
}
