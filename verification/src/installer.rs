//! The USB installer: device detection, the installation plan, the
//! partition layout, sysroot customisation, the ESP and the TUI form.
pub mod bootloader;
pub mod customize;
pub mod detect;
pub mod manifest;
pub mod mkfs;
pub mod mount_;
pub mod partition;
pub mod pipeline;
pub mod prompt;
pub mod spec;
pub mod tui;
