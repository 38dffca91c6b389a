//! The decisions behind running a child process.
//!
//! A command is described ([`command`]), spawned action by action ([`spawn`]), read ([`read`]) and
//! reaped ([`reap`]), by threads that take turns ([`threads`]); its events amount to a status and an
//! output ([`event`]). Nothing here touches a process: the caller performs the actions and hands
//! their outcomes back.
pub mod command;
pub mod error;
pub mod event;
pub mod path;
pub mod platform;
pub mod read;
pub mod reap;
pub mod scenario;
pub mod sidecar;
pub mod spawn;
pub mod status;
pub mod threads;
pub mod wait;

pub use encoding_rs::Encoding;
