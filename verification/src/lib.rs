//! A verified client core for remote-controlling a desktop soundboard
//! application over a local byte-stream channel.
//!
//! The library models the whole command path: building command payloads,
//! driving the non-blocking send/receive loops over an unframed byte
//! channel, serializing queued commands with per-command cooldowns,
//! decoding the line-oriented response protocol into typed outcomes, and
//! reading the sound catalog listing the host application returns.
//!
//! Everything asynchronous — the real channel, the queue between callers
//! and the single actor task that owns the channel — lives outside this
//! crate; the functions here are the decisions and data transformations
//! that such a shell drives.

pub mod ascii;
pub mod builder;
pub mod client;
pub mod command;
pub mod connection;
pub mod decimal;
pub mod parse_or;
pub mod play;
pub mod response_code;
pub mod soundlist;

pub use builder::{ClientBuilder, ConnectError, Session};
pub use client::{Client, Error};
pub use command::Command;
pub use connection::Connection;
pub use response_code::{ErrorCode, ResponseCode, SuccessCode};
pub use soundlist::{Sound, SoundList};
