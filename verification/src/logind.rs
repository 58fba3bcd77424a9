//! `writeonce-logind`, a minimal `org.freedesktop.login1` shim: its session
//! and inhibitor registry and the answers of its Manager, Seat and Session
//! interfaces.
pub mod manager;
pub mod session_props;
pub mod state;
