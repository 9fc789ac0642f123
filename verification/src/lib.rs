//! A minimal shell core: command resolution and dispatch.
//!
//! The library classifies a command name as a shell builtin, as an executable
//! found on a search path, or as not found, and it decides what the shell must
//! do for each command: which text to write, which program to launch, or which
//! exit status to terminate with.  All environment and filesystem facts are
//! handed in as plain values, so every decision here is verified.

pub mod builtin;
pub mod command;
pub mod dispatch;
pub mod parse;
pub mod text;

pub use builtin::Action;
pub use builtin::Builtin;
pub use builtin::UsageError;
pub use command::Command;
pub use command::join_path;
pub use command::resolve;
pub use dispatch::execute;
pub use parse::parse_i32;
pub use text::split_search_path;
pub use text::split_tokens;
