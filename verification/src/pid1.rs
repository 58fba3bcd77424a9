//! PID 1: its configuration, the essential mounts, the placeholder child
//! and the signal-driven shutdown.
pub mod config;
pub mod supervise;
