//! A line-oriented command interpreter with bounded memory.
//!
//! The interpreter takes characters one at a time, keeps and edits a single
//! input line, and, when the line is complete, resolves it against a fixed
//! table of commands. What it has to say goes, character by character, into a
//! bounded output channel that the caller drains at its own pace.

pub mod channel;
pub mod cli;
pub mod commands;
pub mod dispatch;
pub mod editor;
pub mod menu;
pub mod strings;
pub mod text;
pub mod tokens;

pub use crate::cli::EmbeddedCli;
pub use crate::commands::cli_temperature_setpoint;
pub use crate::menu::{MenuItem, MenuParameters};
