//! The TUI login greeter: its configuration, `.desktop` session discovery,
//! and the decisions of its login loop.
pub mod config;
pub mod flow;
pub mod sessions;
