//! Relay logic between a game server's log, a chat gateway and a streaming chat.
//!
//! The crate holds the decisions of the relay as verified functions on plain
//! values: following a growing log, classifying its lines, rendering rich chat
//! messages, routing events and supervising the long-running tasks.

pub mod cal;
pub mod commands;
pub mod emoji;
pub mod follow;
pub mod format;
pub mod grammar;
pub mod ipc;
pub mod log;
pub mod minecraft;
pub mod parse;
pub mod pattern;
pub mod people;
pub mod relay;
pub mod supervisor;
pub mod text;
pub mod twitch;
pub mod util;
pub mod voice;
