//! The PAM console login: its configuration, its arguments and prompts, and
//! the hand-over to the session helper.
pub mod config;
pub mod flow;
