//! Resolving the installation plan from `target-os.json` and the operator's
//! answers.
//!
//! Each value comes from the spec when it has one and from the operator's
//! answer to the matching prompt otherwise; the checks below decide which
//! plans are refused, and why.
use vstd::prelude::*;
use vstd::string::StringSliceAdditionalSpecFns;
use crate::installer::detect::UsbDevice;
use crate::installer::spec::{
    InstallationPlan, KeyboardSpec, PartitionPlan, PartitionsSpec, ResolvedKeyboard,
    ResolvedNetwork, ResolvedUser, TargetOsSpec, UserSpec,
};
use crate::num::{dec_digits, decimal_string, push_decimal};
use crate::text::{chars_of, extend_str, is_digit, is_lower, starts_with, string_from, vec_starts_with};

verus! {

/// ESP size when the operator just presses Enter.
pub const DEFAULT_ESP_MIB: u32 = 512;

/// Login shell when the spec names none.
pub const DEFAULT_SHELL: &'static str = "/bin/bash";

/// Keyboard layout when the operator just presses Enter.
pub const DEFAULT_KEYBOARD_LAYOUT: &'static str = "us";

/// Why a plan is refused.
#[derive(Debug, Clone, PartialEq, Eq)]
pub enum PlanError {
    /// The ESP size (MiB) is outside `[100, 4096]`.
    EspOutOfRange(u32),
    /// The root size (GiB) exceeds what the disk has after the ESP.
    RootTooLarge { requested: u32, available: u32 },
    /// The username is empty or `root`.
    ReservedUsername,
    /// The username has a character other than `[a-z0-9_]`.
    UsernameCharacters(String),
    /// A keymap name has a character other than `[a-z0-9_]`.
    KeymapCharacters(String),
    /// The password hash does not start with `$6$`.
    HashNotSha512(String),
    /// The password hash is shorter than 20 bytes.
    HashTooShort,
}

/// Username and keymap alphabet: lowercase ASCII letters, digits and `_`.
pub open spec fn is_name_char(c: char) -> bool {
    is_lower(c) || is_digit(c) || c == '_'
}

/// Every character is in the username/keymap alphabet.
pub open spec fn all_name_chars(s: Seq<char>) -> bool {
    forall|i: int| 0 <= i < s.len() ==> is_name_char(#[trigger] s[i])
}

fn all_name_chars_exec(s: &str) -> (b: bool)
    ensures
        b == all_name_chars(s@),
{
    let v = chars_of(s);
    let mut i: usize = 0;
    while i < v.len()
        invariant
            i <= v.len(),
            v@ == s@,
            forall|j: int| 0 <= j < i ==> is_name_char(#[trigger] v@[j]),
        decreases v.len() - i,
    {
        let c = v[i];
        if !(('a' <= c && c <= 'z') || ('0' <= c && c <= '9') || c == '_') {
            assert(!is_name_char(v@[i as int]));
            return false;
        }
        i = i + 1;
    }
    true
}

/// Refuses a keymap name with characters other than `[a-z0-9_]` (an empty
/// name passes).
pub fn validate_keymap(s: &str) -> (r: Result<(), PlanError>)
    ensures
        match r {
            Ok(()) => all_name_chars(s@),
            Err(e) => !all_name_chars(s@) && (e matches PlanError::KeymapCharacters(k) && k@ == s@),
        },
{
    if !all_name_chars_exec(s) {
        return Err(PlanError::KeymapCharacters(String::from_str(s)));
    }
    Ok(())
}

/// A non-empty keymap name in the `[a-z0-9_]` alphabet.
pub fn valid_keymap(s: &str) -> (b: bool)
    ensures
        b == (s@.len() > 0 && all_name_chars(s@)),
{
    !s.is_empty() && all_name_chars_exec(s)
}

/// The verdict on a username: not empty, not `root`, only `[a-z0-9_]`.
pub open spec fn username_ok(name: Seq<char>) -> bool {
    name.len() > 0 && name != "root"@ && all_name_chars(name)
}

/// Refuses an empty or `root` username, then one outside `[a-z0-9_]`.
pub fn validate_username(name: &str) -> (r: Result<(), PlanError>)
    ensures
        match r {
            Ok(()) => username_ok(name@),
            Err(PlanError::ReservedUsername) => name@.len() == 0 || name@ == "root"@,
            Err(PlanError::UsernameCharacters(n)) => name@.len() > 0 && name@ != "root"@
                && !all_name_chars(name@) && n@ == name@,
            Err(_) => false,
        },
{
    if name.is_empty() || crate::text::vec_eq(&chars_of(name), &chars_of("root")) {
        return Err(PlanError::ReservedUsername);
    }
    if !all_name_chars_exec(name) {
        return Err(PlanError::UsernameCharacters(String::from_str(name)));
    }
    Ok(())
}

/// The refusal of a username that fails [`username_ok`]: reserved when
/// empty or `root`, else the name with its bad characters.
pub open spec fn username_refusal(e: PlanError, name: Seq<char>) -> bool {
    if name.len() == 0 || name == "root"@ {
        e is ReservedUsername
    } else {
        e matches PlanError::UsernameCharacters(n) && n@ == name
    }
}

/// The refusal of a keyboard that fails [`keyboard_spec`]: the typed layout
/// when it is the one at fault, else the typed variant.
pub open spec fn keymap_refusal(
    e: PlanError,
    spec_layout: Option<Seq<char>>,
    layout_answer: Seq<char>,
    variant_answer: Seq<char>,
) -> bool {
    e matches PlanError::KeymapCharacters(k) && k@ == (if spec_layout is None && !all_name_chars(
        layout_answer,
    ) {
        layout_answer
    } else {
        variant_answer
    })
}

/// The byte length of a string (its UTF-8 encoding).
pub open spec fn byte_len(s: &str) -> nat {
    s.spec_bytes().len()
}

/// Refuses a password hash that is not SHA-512 crypt (`$6$…`) or is
/// shorter than 20 bytes.
pub fn validate_hash(hash: &str) -> (r: Result<(), PlanError>)
    ensures
        match r {
            Ok(()) => starts_with(hash@, "$6$"@) && byte_len(hash) >= 20,
            Err(PlanError::HashNotSha512(h)) => !starts_with(hash@, "$6$"@) && h@ == hash@,
            Err(PlanError::HashTooShort) => starts_with(hash@, "$6$"@) && byte_len(hash) < 20,
            Err(_) => false,
        },
{
    if !vec_starts_with(&chars_of(hash), &chars_of("$6$")) {
        return Err(PlanError::HashNotSha512(String::from_str(hash)));
    }
    if hash.as_bytes().len() < 20 {
        return Err(PlanError::HashTooShort);
    }
    Ok(())
}

/// The whole-MiB size of the disk as `u32` arithmetic sees it.
pub open spec fn disk_mib(size_bytes: u64) -> u32 {
    ((size_bytes / 1_048_576) % 0x1_0000_0000) as u32
}

/// GiB left for the root partition after the ESP and 8 MiB of GPT padding.
pub open spec fn max_root_gib_spec(size_bytes: u64, esp_mib: u32) -> u32 {
    let d = disk_mib(size_bytes) as int;
    let need = esp_mib as int + 8;
    (if d >= need { (d - need) / 1024 } else { 0 }) as u32
}

/// GiB left for the root partition after the ESP and 8 MiB of GPT padding.
pub fn max_root_gib(size_bytes: u64, esp_mib: u32) -> (g: u32)
    requires
        esp_mib <= u32::MAX - 8,
    ensures
        g == max_root_gib_spec(size_bytes, esp_mib),
{
    let d = ((size_bytes / 1_048_576) % 0x1_0000_0000) as u32;
    d.saturating_sub(esp_mib + 8) / 1024
}

/// The partition layout: the ESP size from the spec or the answer, which
/// must lie in `[100, 4096]` MiB; the root size from the spec (refused when
/// larger than the disk has room for) unless the spec says 0 or nothing,
/// in which case the answer decides and 0 or the whole room means "rest of
/// disk".
pub open spec fn partition_spec(
    spec_esp: Option<u32>,
    spec_root: Option<u32>,
    size_bytes: u64,
    esp_answer: u32,
    root_answer: u32,
) -> Result<(u32, Option<u32>), PlanError> {
    let esp = match spec_esp {
        Some(v) => v,
        None => esp_answer,
    };
    if esp < 100 || esp > 4096 {
        Err(PlanError::EspOutOfRange(esp))
    } else {
        let max = max_root_gib_spec(size_bytes, esp);
        match spec_root {
            Some(v) => if v == 0 {
                Ok((esp, if root_answer == max || root_answer == 0 { None } else { Some(root_answer) }))
            } else if v > max {
                Err(PlanError::RootTooLarge { requested: v, available: max })
            } else {
                Ok((esp, Some(v)))
            },
            None => Ok(
                (esp, if root_answer == max || root_answer == 0 { None } else { Some(root_answer) }),
            ),
        }
    }
}

/// A root size the spec gives is kept as it is, whatever the operator
/// answered, when it is not 0 and the disk has room for it after the ESP
/// and 8 MiB of GPT padding; when the disk has no room for it the plan is
/// refused with the room there is.
pub proof fn lemma_spec_root_size_kept(
    spec_esp: Option<u32>,
    v: u32,
    size_bytes: u64,
    esp_answer: u32,
    root_answer: u32,
)
    ensures
        ({
            let esp = match spec_esp {
                Some(e) => e,
                None => esp_answer,
            };
            let room_mib = disk_mib(size_bytes) as int - esp as int - 8;
            &&& 100 <= esp <= 4096 && v > 0 && v as int * 1024 <= room_mib ==> partition_spec(
                spec_esp,
                Some(v),
                size_bytes,
                esp_answer,
                root_answer,
            ) == Ok::<(u32, Option<u32>), PlanError>((esp, Some(v)))
            &&& 100 <= esp <= 4096 && v > 0 && v as int * 1024 > room_mib + 1023 ==> partition_spec(
                spec_esp,
                Some(v),
                size_bytes,
                esp_answer,
                root_answer,
            ) is Err
        }),
{
    let esp = match spec_esp {
        Some(e) => e,
        None => esp_answer,
    };
    let d = disk_mib(size_bytes) as int;
    let room = d - esp as int - 8;
    let max = max_root_gib_spec(size_bytes, esp);
    if 100 <= esp <= 4096 {
        assert(0 <= d < 0x1_0000_0000);
        if room >= 0 {
            assert(0 <= room / 1024 < 0x1_0000_0000) by (nonlinear_arith)
                requires
                    0 <= room < 0x1_0000_0000,
            ;
            assert(max as int == room / 1024);
            let vi = v as int;
            if vi * 1024 <= room {
                assert(vi <= room / 1024) by (nonlinear_arith)
                    requires
                        vi * 1024 <= room,
                        room >= 0,
                ;
            }
            if vi * 1024 > room + 1023 {
                assert(vi > room / 1024) by (nonlinear_arith)
                    requires
                        vi * 1024 > room + 1023,
                        room >= 0,
                ;
            }
        } else {
            assert(max == 0);
        }
    }
}

/// Resolves the partition layout for `device`. `esp_answer` and
/// `root_answer` are what the operator typed (Enter giving the defaults,
/// 512 MiB and the whole room); each counts only where the spec has no
/// value.
pub fn gather_partition(
    spec: Option<&PartitionsSpec>,
    device: &UsbDevice,
    esp_answer: u32,
    root_answer: u32,
) -> (r: Result<PartitionPlan, PlanError>)
    ensures
        ({
            let want = partition_spec(
                match spec {
                    Some(s) => s.esp_mib,
                    None => None,
                },
                match spec {
                    Some(s) => s.root_gib,
                    None => None,
                },
                device.size_bytes,
                esp_answer,
                root_answer,
            );
            match r {
                Ok(p) => want == Ok::<(u32, Option<u32>), PlanError>((p.esp_mib, p.root_gib)),
                Err(e) => want == Err::<(u32, Option<u32>), PlanError>(e),
            }
        }),
{
    let spec_esp = match spec {
        Some(s) => s.esp_mib,
        None => None,
    };
    let spec_root = match spec {
        Some(s) => s.root_gib,
        None => None,
    };
    let esp = match spec_esp {
        Some(v) => v,
        None => esp_answer,
    };
    if esp < 100 || esp > 4096 {
        return Err(PlanError::EspOutOfRange(esp));
    }
    let max = max_root_gib(device.size_bytes, esp);
    let from_answer = if root_answer == max || root_answer == 0 { None } else { Some(root_answer) };
    let root_gib = match spec_root {
        Some(v) => if v == 0 {
            from_answer
        } else if v > max {
            return Err(PlanError::RootTooLarge { requested: v, available: max });
        } else {
            Some(v)
        },
        None => from_answer,
    };
    Ok(PartitionPlan { esp_mib: esp, root_gib })
}

/// The supplementary groups when the spec names none.
pub open spec fn default_groups() -> Seq<Seq<char>> {
    seq!["wheel"@, "video"@, "audio"@, "input"@, "plugdev"@]
}

/// The views of a list of strings.
pub open spec fn string_list(v: Seq<String>) -> Seq<Seq<char>> {
    v.map_values(|s: String| s@)
}

pub(crate) fn copy_strings(v: &Vec<String>) -> (r: Vec<String>)
    ensures
        string_list(r@) == string_list(v@),
{
    let mut r: Vec<String> = Vec::new();
    let mut i: usize = 0;
    while i < v.len()
        invariant
            i <= v.len(),
            string_list(r@) =~= string_list(v@).take(i as int),
        decreases v.len() - i,
    {
        r.push(v[i].clone());
        assert(string_list(v@).take(i + 1) =~= string_list(v@).take(i as int).push(v@[i as int]@));
        i = i + 1;
    }
    assert(string_list(v@).take(v.len() as int) =~= string_list(v@));
    r
}

/// The default supplementary groups.
pub fn default_group_list() -> (r: Vec<String>)
    ensures
        string_list(r@) == default_groups(),
{
    let r = vec![
        String::from_str("wheel"),
        String::from_str("video"),
        String::from_str("audio"),
        String::from_str("input"),
        String::from_str("plugdev"),
    ];
    assert(string_list(r@) =~= default_groups());
    r
}

/// The mathematical value of a [`ResolvedUser`].
pub struct UserModel {
    pub name: Seq<char>,
    pub real_name: Seq<char>,
    pub password_hash: Seq<char>,
    pub shell: Seq<char>,
    pub groups: Seq<Seq<char>>,
    pub uid: u32,
    pub gid: u32,
}

impl View for ResolvedUser {
    type V = UserModel;

    open spec fn view(&self) -> UserModel {
        UserModel {
            name: self.name@,
            real_name: self.real_name@,
            password_hash: self.password_hash@,
            shell: self.shell@,
            groups: string_list(self.groups@),
            uid: self.uid,
            gid: self.gid,
        }
    }
}

/// The view of an optional string.
pub open spec fn opt_string(o: Option<String>) -> Option<Seq<char>> {
    match o {
        Some(s) => Some(s@),
        None => None,
    }
}

/// The primary user: name and real name from the spec or the answers (the
/// name checked by [`username_ok`]), the password hash always from the
/// prompt, shell and groups from the spec or their defaults, uid and gid
/// 1000.
pub open spec fn user_spec(
    spec_name: Option<Seq<char>>,
    spec_real: Option<Seq<char>>,
    spec_shell: Option<Seq<char>>,
    spec_groups: Option<Seq<Seq<char>>>,
    name_answer: Seq<char>,
    real_answer: Seq<char>,
    hash: Seq<char>,
) -> Option<UserModel> {
    let name = match spec_name {
        Some(n) => n,
        None => name_answer,
    };
    if !username_ok(name) {
        None
    } else {
        Some(
            UserModel {
                name,
                real_name: match spec_real {
                    Some(r) => r,
                    None => real_answer,
                },
                password_hash: hash,
                shell: match spec_shell {
                    Some(s) => s,
                    None => "/bin/bash"@,
                },
                groups: match spec_groups {
                    Some(g) => g,
                    None => default_groups(),
                },
                uid: 1000,
                gid: 1000,
            },
        )
    }
}

/// Resolves the primary user. `name_answer` and `real_answer` are what the
/// operator typed (used only where the spec has no value); `password_hash`
/// is the hash of the password the operator typed twice.
pub fn gather_user(
    spec: Option<&UserSpec>,
    name_answer: &str,
    real_answer: &str,
    password_hash: String,
) -> (r: Result<ResolvedUser, PlanError>)
    ensures
        ({
            let want = user_spec(
                match spec { Some(s) => opt_string(s.name), None => None },
                match spec { Some(s) => opt_string(s.real_name), None => None },
                match spec { Some(s) => opt_string(s.shell), None => None },
                match spec {
                    Some(s) => match s.groups {
                        Some(g) => Some(string_list(g@)),
                        None => None,
                    },
                    None => None,
                },
                name_answer@,
                real_answer@,
                password_hash@,
            );
            match r {
                Ok(u) => want == Some(u@),
                Err(e) => want is None && username_refusal(
                    e,
                    match spec {
                        Some(s) => match s.name {
                            Some(n) => n@,
                            None => name_answer@,
                        },
                        None => name_answer@,
                    },
                ),
            }
        }),
{
    let name = match spec {
        Some(s) => match &s.name {
            Some(n) => n.clone(),
            None => String::from_str(name_answer),
        },
        None => String::from_str(name_answer),
    };
    match validate_username(name.as_str()) {
        Ok(()) => {},
        Err(e) => return Err(e),
    }
    let real_name = match spec {
        Some(s) => match &s.real_name {
            Some(n) => n.clone(),
            None => String::from_str(real_answer),
        },
        None => String::from_str(real_answer),
    };
    let shell = match spec {
        Some(s) => match &s.shell {
            Some(n) => n.clone(),
            None => String::from_str(DEFAULT_SHELL),
        },
        None => String::from_str(DEFAULT_SHELL),
    };
    let groups = match spec {
        Some(s) => match &s.groups {
            Some(g) => copy_strings(g),
            None => default_group_list(),
        },
        None => default_group_list(),
    };
    Ok(ResolvedUser { name, real_name, password_hash, shell, groups, uid: 1000, gid: 1000 })
}

/// The keyboard: the layout from the spec as it is, or the answer (checked
/// by [`validate_keymap`]); the variant from the spec when non-empty, else
/// from the answer (empty meaning none, otherwise checked).
pub open spec fn keyboard_spec(
    spec_layout: Option<Seq<char>>,
    spec_variant: Option<Seq<char>>,
    layout_answer: Seq<char>,
    variant_answer: Seq<char>,
) -> Option<(Seq<char>, Option<Seq<char>>)> {
    let layout = match spec_layout {
        Some(l) => Some(l),
        None => if all_name_chars(layout_answer) { Some(layout_answer) } else { None },
    };
    match layout {
        None => None,
        Some(l) => match spec_variant {
            Some(v) if v.len() > 0 => Some((l, Some(v))),
            _ => if variant_answer.len() == 0 {
                Some((l, None))
            } else if all_name_chars(variant_answer) {
                Some((l, Some(variant_answer)))
            } else {
                None
            },
        },
    }
}

/// Resolves the keyboard. The answers count only where the spec has no
/// value (`layout_answer` is `us` when the operator presses Enter).
pub fn gather_keyboard(spec: Option<&KeyboardSpec>, layout_answer: &str, variant_answer: &str) -> (r:
    Result<ResolvedKeyboard, PlanError>)
    ensures
        ({
            let want = keyboard_spec(
                match spec { Some(s) => opt_string(s.layout), None => None },
                match spec { Some(s) => opt_string(s.variant), None => None },
                layout_answer@,
                variant_answer@,
            );
            match r {
                Ok(k) => want == Some((k.layout@, opt_string(k.variant))),
                Err(e) => want is None && keymap_refusal(
                    e,
                    match spec { Some(s) => opt_string(s.layout), None => None },
                    layout_answer@,
                    variant_answer@,
                ),
            }
        }),
{
    let spec_layout = match spec {
        Some(s) => match &s.layout {
            Some(l) => Some(l.clone()),
            None => None,
        },
        None => None,
    };
    let layout = match spec_layout {
        Some(l) => l,
        None => {
            match validate_keymap(layout_answer) {
                Ok(()) => {},
                Err(e) => return Err(e),
            }
            String::from_str(layout_answer)
        },
    };
    let spec_variant = match spec {
        Some(s) => match &s.variant {
            Some(v) => if v.as_str().is_empty() { None } else { Some(v.clone()) },
            None => None,
        },
        None => None,
    };
    let variant = match spec_variant {
        Some(v) => Some(v),
        None => {
            if variant_answer.is_empty() {
                None
            } else {
                match validate_keymap(variant_answer) {
                    Ok(()) => {},
                    Err(e) => return Err(e),
                }
                Some(String::from_str(variant_answer))
            }
        },
    };
    Ok(ResolvedKeyboard { layout, variant })
}

/// What the operator typed at each prompt of the CLI flow. A value is used
/// only where the spec leaves the field open.
#[derive(Debug, Clone)]
pub struct PlanAnswers {
    /// ESP size in MiB (512 for Enter).
    pub esp_mib: u32,
    /// Root size in GiB (the whole room for Enter; 0 also means the rest).
    pub root_gib: u32,
    /// Username.
    pub user_name: String,
    /// Real name (empty for Enter).
    pub real_name: String,
    /// SHA-512 crypt hash of the password typed twice.
    pub password_hash: String,
    /// Keyboard layout (`us` for Enter).
    pub layout: String,
    /// Keyboard variant (empty for none).
    pub variant: String,
}

/// Network at boot: what the spec says, off otherwise.
pub open spec fn network_spec(spec: Option<crate::installer::spec::NetworkSpec>) -> bool {
    match spec {
        Some(n) => match n.enabled_at_boot {
            Some(b) => b,
            None => false,
        },
        None => false,
    }
}

/// Resolves the whole plan for `device`: partitions, then user, then
/// keyboard, and the network choice. A refusal is the first failing step's
/// error.
pub fn gather_plan(spec: &TargetOsSpec, device: &UsbDevice, answers: PlanAnswers) -> (r: Result<
    InstallationPlan,
    PlanError,
>)
    ensures
        match r {
            Ok(p) => {
                &&& partition_spec(
                    match spec.partitions { Some(s) => s.esp_mib, None => None },
                    match spec.partitions { Some(s) => s.root_gib, None => None },
                    device.size_bytes,
                    answers.esp_mib,
                    answers.root_gib,
                ) == Ok::<(u32, Option<u32>), PlanError>((p.partition.esp_mib, p.partition.root_gib))
                &&& user_spec(
                    match spec.user { Some(s) => opt_string(s.name), None => None },
                    match spec.user { Some(s) => opt_string(s.real_name), None => None },
                    match spec.user { Some(s) => opt_string(s.shell), None => None },
                    match spec.user {
                        Some(s) => match s.groups {
                            Some(g) => Some(string_list(g@)),
                            None => None,
                        },
                        None => None,
                    },
                    answers.user_name@,
                    answers.real_name@,
                    answers.password_hash@,
                ) == Some(p.user@)
                &&& keyboard_spec(
                    match spec.keyboard { Some(s) => opt_string(s.layout), None => None },
                    match spec.keyboard { Some(s) => opt_string(s.variant), None => None },
                    answers.layout@,
                    answers.variant@,
                ) == Some((p.keyboard.layout@, opt_string(p.keyboard.variant)))
                &&& p.network.enabled_at_boot == network_spec(spec.network)
            },
            Err(e) => {
                let part = partition_spec(
                    match spec.partitions { Some(s) => s.esp_mib, None => None },
                    match spec.partitions { Some(s) => s.root_gib, None => None },
                    device.size_bytes,
                    answers.esp_mib,
                    answers.root_gib,
                );
                let user = user_spec(
                    match spec.user { Some(s) => opt_string(s.name), None => None },
                    match spec.user { Some(s) => opt_string(s.real_name), None => None },
                    match spec.user { Some(s) => opt_string(s.shell), None => None },
                    match spec.user {
                        Some(s) => match s.groups {
                            Some(g) => Some(string_list(g@)),
                            None => None,
                        },
                        None => None,
                    },
                    answers.user_name@,
                    answers.real_name@,
                    answers.password_hash@,
                );
                let keyboard = keyboard_spec(
                    match spec.keyboard { Some(s) => opt_string(s.layout), None => None },
                    match spec.keyboard { Some(s) => opt_string(s.variant), None => None },
                    answers.layout@,
                    answers.variant@,
                );
                if part is Err {
                    part == Err::<(u32, Option<u32>), PlanError>(e)
                } else if user is None {
                    username_refusal(
                        e,
                        match spec.user {
                            Some(s) => match s.name {
                                Some(n) => n@,
                                None => answers.user_name@,
                            },
                            None => answers.user_name@,
                        },
                    )
                } else {
                    keyboard is None && keymap_refusal(
                        e,
                        match spec.keyboard { Some(s) => opt_string(s.layout), None => None },
                        answers.layout@,
                        answers.variant@,
                    )
                }
            },
        },
{
    let partition = match gather_partition(spec.partitions.as_ref(), device, answers.esp_mib, answers.root_gib) {
        Ok(p) => p,
        Err(e) => return Err(e),
    };
    let user = match gather_user(
        spec.user.as_ref(),
        answers.user_name.as_str(),
        answers.real_name.as_str(),
        answers.password_hash,
    ) {
        Ok(u) => u,
        Err(e) => return Err(e),
    };
    let keyboard = match gather_keyboard(spec.keyboard.as_ref(), answers.layout.as_str(), answers.variant.as_str()) {
        Ok(k) => k,
        Err(e) => return Err(e),
    };
    let enabled = match &spec.network {
        Some(n) => match n.enabled_at_boot {
            Some(b) => b,
            None => false,
        },
        None => false,
    };
    Ok(InstallationPlan { partition, user, keyboard, network: ResolvedNetwork { enabled_at_boot: enabled } })
}

impl PlanError {
    /// The message the installer prints for the refusal.
    pub fn message(&self) -> (m: String)
        ensures
            self matches PlanError::EspOutOfRange(esp) ==> m@ == "ESP size "@ + dec_digits(esp as nat)
                + " MiB out of sane range [100, 4096]"@,
            self matches PlanError::RootTooLarge { requested, available } ==> m@ == "Root size "@
                + dec_digits(requested as nat) + " GiB exceeds available "@ + dec_digits(available as nat)
                + " GiB after ESP"@,
            self is ReservedUsername ==> m@ == "username must be set and must not be 'root'"@,
            self matches PlanError::UsernameCharacters(n) ==> m@ == "username '"@ + n@
                + "' must be lowercase alphanumeric + underscore only"@,
            self matches PlanError::KeymapCharacters(k) ==> m@ == "keymap '"@ + k@
                + "' must be lowercase alphanumeric + underscore only"@,
            self matches PlanError::HashNotSha512(h) ==> m@
                == "password hash doesn't look like SHA-512 crypt ($6$...): "@ + h@,
            self is HashTooShort ==> m@ == "password hash unexpectedly short"@,
    {
        let mut v: Vec<char> = Vec::new();
        match self {
            PlanError::EspOutOfRange(esp) => {
                extend_str(&mut v, "ESP size ");
                push_decimal(&mut v, *esp as u64);
                extend_str(&mut v, " MiB out of sane range [100, 4096]");
            },
            PlanError::RootTooLarge { requested, available } => {
                extend_str(&mut v, "Root size ");
                push_decimal(&mut v, *requested as u64);
                extend_str(&mut v, " GiB exceeds available ");
                push_decimal(&mut v, *available as u64);
                extend_str(&mut v, " GiB after ESP");
            },
            PlanError::ReservedUsername => {
                extend_str(&mut v, "username must be set and must not be 'root'");
            },
            PlanError::UsernameCharacters(n) => {
                extend_str(&mut v, "username '");
                extend_str(&mut v, n.as_str());
                extend_str(&mut v, "' must be lowercase alphanumeric + underscore only");
            },
            PlanError::KeymapCharacters(k) => {
                extend_str(&mut v, "keymap '");
                extend_str(&mut v, k.as_str());
                extend_str(&mut v, "' must be lowercase alphanumeric + underscore only");
            },
            PlanError::HashNotSha512(h) => {
                extend_str(&mut v, "password hash doesn't look like SHA-512 crypt ($6$...): ");
                extend_str(&mut v, h.as_str());
            },
            PlanError::HashTooShort => {
                extend_str(&mut v, "password hash unexpectedly short");
            },
        }
        string_from(&v)
    }
}

} // verus!
