//! The kernel-config generator's hardware probe: the probe's schema and the
//! reading of `/proc`, `/sys` and the EFI variables into it.
pub mod probe;
pub mod types;
