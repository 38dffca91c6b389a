[package]
name = "shell_process"
version = "0.1.0"
edition = "2021"
publish = false

[dependencies]
encoding_rs = "=0.8.44"
libc = "=0.2.191"
log = "0.4"
os_pipe = "=1.2.3"
process-wrap = { version = "=8.2.2", default-features = false, features = ["std", "process-group", "creation-flags", "job-object"] }
serde = { version = "1", features = ["derive"] }
tauri-utils = { version = "=2.10.2", default-features = false }
tokio = { version = "=1.54.1", features = ["rt-multi-thread", "sync"] }
tracing-subscriber = { version = "0.3", features = ["env-filter"] }
windows = { version = "=0.61.3", features = ["Win32_Foundation", "Win32_System_Threading"] }
