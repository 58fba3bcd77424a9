//! The initramfs `/init`: kernel command line, root discovery, module list,
//! early mounts and the recovery shell's command language.
pub mod boot;
pub mod cmdline;
pub mod discover;
pub mod modules;
pub mod mount;
pub mod recovery;
