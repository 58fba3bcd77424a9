//! Verified core of the WriteOnce OS userland: boot command-line and
//! configuration parsing, session discovery, installer planning and sysroot
//! customisation, login-daemon bookkeeping and PID 1 decisions.
pub mod text;
pub mod order;
pub mod num;
pub mod initramfs;
pub mod greeter;
pub mod clock;
pub mod logind;
pub mod login;
pub mod pid1;
pub mod installer;
pub mod kerngen;
pub mod session_create;
pub mod loader;
