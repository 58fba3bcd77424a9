//! `target-os.json` schema and the resolved installation plan.
//!
//! Every field of the spec is optional; a missing value is asked for
//! interactively. The resolved plan holds every value.
use vstd::prelude::*;

verus! {

/// The optional answers of a `target-os.json` file.
#[derive(Debug, Default)]
pub struct TargetOsSpec {
    pub schema_version: Option<String>,
    pub partitions: Option<PartitionsSpec>,
    pub user: Option<UserSpec>,
    pub keyboard: Option<KeyboardSpec>,
    pub network: Option<NetworkSpec>,
}

/// Network choices of the spec.
#[derive(Debug, Default, Clone)]
pub struct NetworkSpec {
    /// When `true`, the installer pre-enables iwd, dhcpcd and module loading
    /// and makes `default.target` require `multi-user.target`, for headless
    /// installs. Default `false`.
    pub enabled_at_boot: Option<bool>,
}

/// Partition sizes of the spec.
#[derive(Debug, Default, Clone)]
pub struct PartitionsSpec {
    /// EFI System Partition size in mebibytes. Default 512.
    pub esp_mib: Option<u32>,
    /// Root partition size in gibibytes. None = consume rest of disk.
    pub root_gib: Option<u32>,
}

/// The primary user of the spec.
#[derive(Debug, Default, Clone)]
pub struct UserSpec {
    /// Username. Must not be "root". Lowercase alphanumeric + underscore.
    pub name: Option<String>,
    /// GECOS field (real name). Optional.
    pub real_name: Option<String>,
    /// Ignored: the password is always asked for interactively.
    pub password_hash: Option<String>,
    /// Login shell. Default /bin/bash.
    pub shell: Option<String>,
    /// Supplementary groups. Default [wheel, video, audio, input, plugdev].
    pub groups: Option<Vec<String>>,
}

/// The keyboard of the spec.
#[derive(Debug, Default, Clone)]
pub struct KeyboardSpec {
    /// X11/console keymap layout (e.g. "us", "uk", "de", "fr").
    pub layout: Option<String>,
    /// Optional layout variant ("dvorak", "intl", …).
    pub variant: Option<String>,
}

/// The resolved plan: every value present.
#[derive(Debug, Clone)]
pub struct InstallationPlan {
    pub partition: PartitionPlan,
    pub user: ResolvedUser,
    pub keyboard: ResolvedKeyboard,
    pub network: ResolvedNetwork,
}

/// The resolved network choice.
#[derive(Debug, Clone, Copy, Default)]
pub struct ResolvedNetwork {
    /// Pre-enable the network services and boot to `multi-user.target`.
    pub enabled_at_boot: bool,
}

/// The resolved partition sizes.
#[derive(Debug, Clone)]
pub struct PartitionPlan {
    pub esp_mib: u32,
    /// None = use the rest of the disk after the ESP.
    pub root_gib: Option<u32>,
}

/// The resolved primary user.
#[derive(Debug, Clone)]
pub struct ResolvedUser {
    pub name: String,
    pub real_name: String,
    /// Pre-hashed shadow entry ($6$…).
    pub password_hash: String,
    pub shell: String,
    pub groups: Vec<String>,
    /// UID. Always 1000 for the primary user.
    pub uid: u32,
    /// Primary GID. Always matches uid.
    pub gid: u32,
}

/// The resolved keyboard.
#[derive(Debug, Clone)]
pub struct ResolvedKeyboard {
    pub layout: String,
    pub variant: Option<String>,
}

} // verus!
