//! The installer's five-screen form as a state machine: device, partition
//! sizes, user, keyboard, summary.
//!
//! The form only gathers answers. Each key press moves the state by
//! [`step`]; drawing the state and reading keys is the caller's part.
use vstd::prelude::*;
use vstd::string::StringSliceAdditionalSpecFns;
use vstd::utf8::encode_utf8;
use crate::installer::detect::{UsbDevice, UsbDeviceModel};
use crate::installer::prompt::{
    all_name_chars, copy_strings, default_group_list, default_groups, disk_mib, is_name_char,
    max_root_gib_spec, opt_string, string_list, validate_hash, PlanError, DEFAULT_SHELL,
};
use crate::installer::spec::{
    InstallationPlan, PartitionPlan, ResolvedKeyboard, ResolvedNetwork, ResolvedUser,
    TargetOsSpec,
};
use crate::num::{dec_digits, decimal_string, parse_u32, push_decimal};
use crate::text::{chars_of, extend, extend_str, push_char, string_from, string_of, trim, trim_vec, vec_eq};
use crate::num::parse_u32_vec;

verus! {

/// ESP size shown when the spec names none.
pub const TUI_DEFAULT_ESP: &'static str = "512";

/// Keyboard layout shown when the spec names none.
pub const TUI_DEFAULT_LAYOUT: &'static str = "us";

pub const MSG_ESP_RANGE: &'static str = "ESP must be a number in 64\u{2013}8192 MiB";
pub const MSG_ROOT_NUMBER: &'static str = "root GiB must be a non-negative integer (0 = rest)";
pub const MSG_USERNAME_SET: &'static str = "username must be set and must not be 'root'";
pub const MSG_USERNAME_CHARS: &'static str = "username must be lowercase alphanumeric + underscore only";
pub const MSG_PASSWORD_SHORT: &'static str = "password must be at least 6 characters";
pub const MSG_PASSWORD_MISMATCH: &'static str = "password and confirmation do not match";
pub const MSG_LAYOUT_EMPTY: &'static str = "layout cannot be empty";
pub const MSG_LAYOUT_CHARS: &'static str = "layout must be lowercase alphanumeric + underscore";
pub const MSG_VARIANT_CHARS: &'static str = "variant must be lowercase alphanumeric + underscore";

/// A key press, as the form reads it.
#[derive(Debug, Clone, Copy, PartialEq, Eq)]
pub enum Key {
    Esc,
    Up,
    Down,
    Left,
    Tab,
    BackTab,
    Enter,
    Backspace,
    F2,
    /// A character; `ctrl` when Control was held.
    Char { c: char, ctrl: bool },
    /// Any other key.
    Other,
}

/// The form's screens, in order.
#[derive(Debug, Clone, Copy, PartialEq, Eq)]
pub enum Screen {
    DeviceSelect,
    Partition,
    User,
    Keyboard,
    Summary,
}

/// How the form ended.
#[derive(Debug, Clone, Copy, PartialEq, Eq)]
pub enum Outcome {
    Confirmed,
    Cancelled,
}

/// The form's state.
pub struct App {
    pub screen: Screen,
    pub outcome: Option<Outcome>,
    /// The last refusal, shown until the next key.
    pub error: Option<String>,
    pub devices: Vec<UsbDevice>,
    /// The highlighted device.
    pub device_idx: usize,
    /// 0 = ESP field, 1 = root field.
    pub partition_focus: usize,
    pub esp_mib_input: String,
    pub root_gib_input: String,
    /// 0 = name, 1 = real name, 2 = password, 3 = confirmation.
    pub user_focus: usize,
    pub user_name: String,
    pub user_realname: String,
    pub user_password: String,
    pub user_password_confirm: String,
    pub show_passwords: bool,
    /// 0 = layout, 1 = variant.
    pub keyboard_focus: usize,
    pub kb_layout: String,
    pub kb_variant: String,
    /// The spec's shell, kept for the plan.
    pub spec_user_shell: Option<String>,
    /// The spec's groups, kept for the plan.
    pub spec_user_groups: Option<Vec<String>>,
}

/// The mathematical value of an [`App`].
#[verifier::ext_equal]
pub struct AppModel {
    pub screen: Screen,
    pub outcome: Option<Outcome>,
    pub error: Option<Seq<char>>,
    pub devices: Seq<UsbDeviceModel>,
    pub device_idx: usize,
    pub partition_focus: usize,
    pub esp_mib_input: Seq<char>,
    pub root_gib_input: Seq<char>,
    pub user_focus: usize,
    pub user_name: Seq<char>,
    pub user_realname: Seq<char>,
    pub user_password: Seq<char>,
    pub user_password_confirm: Seq<char>,
    pub show_passwords: bool,
    pub keyboard_focus: usize,
    pub kb_layout: Seq<char>,
    pub kb_variant: Seq<char>,
    pub spec_user_shell: Option<Seq<char>>,
    pub spec_user_groups: Option<Seq<Seq<char>>>,
}

impl View for App {
    type V = AppModel;

    open spec fn view(&self) -> AppModel {
        AppModel {
            screen: self.screen,
            outcome: self.outcome,
            error: opt_string(self.error),
            devices: self.devices@.map_values(|d: UsbDevice| d@),
            device_idx: self.device_idx,
            partition_focus: self.partition_focus,
            esp_mib_input: self.esp_mib_input@,
            root_gib_input: self.root_gib_input@,
            user_focus: self.user_focus,
            user_name: self.user_name@,
            user_realname: self.user_realname@,
            user_password: self.user_password@,
            user_password_confirm: self.user_password_confirm@,
            show_passwords: self.show_passwords,
            keyboard_focus: self.keyboard_focus,
            kb_layout: self.kb_layout@,
            kb_variant: self.kb_variant@,
            spec_user_shell: opt_string(self.spec_user_shell),
            spec_user_groups: match self.spec_user_groups {
                Some(g) => Some(string_list(g@)),
                None => None,
            },
        }
    }
}

/// The form's invariant: a device is highlighted and every focus names a
/// field of its screen.
pub open spec fn model_wf(m: AppModel) -> bool {
    &&& m.device_idx < m.devices.len()
    &&& m.partition_focus < 2
    &&& m.user_focus < 4
    &&& m.keyboard_focus < 2
}

/// `s` without its last character (unchanged when empty), as
/// `String::pop` leaves it.
pub open spec fn pop_last(s: Seq<char>) -> Seq<char> {
    if s.len() > 0 {
        s.drop_last()
    } else {
        s
    }
}

/// A free-text field after a key: characters are typed, Backspace erases.
pub open spec fn edit_text(buf: Seq<char>, k: Key) -> Seq<char> {
    match k {
        Key::Char { c, .. } => buf.push(c),
        Key::Backspace => pop_last(buf),
        _ => buf,
    }
}

/// A numeric field after a key: digits are typed up to ten, Backspace
/// erases.
pub open spec fn edit_digits(buf: Seq<char>, k: Key) -> Seq<char> {
    match k {
        Key::Char { c, .. } => if '0' <= c && c <= '9' && buf.len() < 10 {
            buf.push(c)
        } else {
            buf
        },
        Key::Backspace => pop_last(buf),
        _ => buf,
    }
}

/// Esc and Control-C end the form.
pub open spec fn is_cancel(k: Key) -> bool {
    k is Esc || k == (Key::Char { c: 'c', ctrl: true })
}

/// The refusal for a device that is not removable.
pub open spec fn not_removable_msg(path: Seq<char>) -> Seq<char> {
    path + " is not removable; refusing."@
}

/// The refusal for a root size larger than the disk has room for.
pub open spec fn root_exceeds_msg(r: u32, max: u32) -> Seq<char> {
    "root "@ + dec_digits(r as nat) + " GiB exceeds available "@ + dec_digits(max as nat)
        + " GiB after ESP"@
}

/// A non-empty keymap name in `[a-z0-9_]`.
pub open spec fn keymap_ok(s: Seq<char>) -> bool {
    s.len() > 0 && all_name_chars(s)
}

/// The device screen: Up/`k` and Down/`j` move within the list, Enter
/// goes on for a removable device and refuses any other.
pub open spec fn step_devices(m: AppModel, k: Key) -> AppModel {
    if k is Up || k matches Key::Char { c: 'k', .. } {
        if m.device_idx > 0 {
            AppModel { device_idx: (m.device_idx - 1) as usize, ..m }
        } else {
            m
        }
    } else if k is Down || k matches Key::Char { c: 'j', .. } {
        if m.device_idx + 1 < m.devices.len() {
            AppModel { device_idx: (m.device_idx + 1) as usize, ..m }
        } else {
            m
        }
    } else if k is Enter {
        let d = m.devices[m.device_idx as int];
        if !d.removable {
            AppModel { error: Some(not_removable_msg(d.path)), ..m }
        } else {
            AppModel { screen: Screen::Partition, ..m }
        }
    } else {
        m
    }
}

/// Enter on the partition screen: the ESP must be 64–8192 MiB, the root a
/// number (0 = the rest) no larger than the room left.
pub open spec fn partition_enter(m: AppModel) -> AppModel {
    match parse_u32(trim(m.esp_mib_input)) {
        Some(esp) if 64 <= esp && esp <= 8192 => match parse_u32(trim(m.root_gib_input)) {
            None => AppModel { error: Some(MSG_ROOT_NUMBER@), ..m },
            Some(r) => {
                let max = max_root_gib_spec(m.devices[m.device_idx as int].size_bytes, esp);
                if r != 0 && r > max {
                    AppModel { error: Some(root_exceeds_msg(r, max)), ..m }
                } else {
                    AppModel { screen: Screen::User, ..m }
                }
            },
        },
        _ => AppModel { error: Some(MSG_ESP_RANGE@), ..m },
    }
}

/// The partition screen.
pub open spec fn step_partition(m: AppModel, k: Key) -> AppModel {
    if k is Tab || k is Down || k is BackTab || k is Up {
        AppModel { partition_focus: ((m.partition_focus + 1) % 2) as usize, ..m }
    } else if k is Enter {
        partition_enter(m)
    } else if k is Left {
        AppModel { screen: Screen::DeviceSelect, ..m }
    } else if m.partition_focus == 0 {
        AppModel { esp_mib_input: edit_digits(m.esp_mib_input, k), ..m }
    } else {
        AppModel { root_gib_input: edit_digits(m.root_gib_input, k), ..m }
    }
}

/// Enter on the user screen: a name that is set, not `root`, in
/// `[a-z0-9_]`; a password of at least six bytes typed the same twice.
pub open spec fn user_enter(m: AppModel) -> AppModel {
    if m.user_name.len() == 0 || m.user_name == "root"@ {
        AppModel { error: Some(MSG_USERNAME_SET@), ..m }
    } else if !all_name_chars(m.user_name) {
        AppModel { error: Some(MSG_USERNAME_CHARS@), ..m }
    } else if encode_utf8(m.user_password).len() < 6 {
        AppModel { error: Some(MSG_PASSWORD_SHORT@), ..m }
    } else if m.user_password != m.user_password_confirm {
        AppModel { error: Some(MSG_PASSWORD_MISMATCH@), ..m }
    } else {
        AppModel { screen: Screen::Keyboard, ..m }
    }
}

/// The user screen.
pub open spec fn step_user(m: AppModel, k: Key) -> AppModel {
    if k is F2 {
        AppModel { show_passwords: !m.show_passwords, ..m }
    } else if k is Tab || k is Down {
        AppModel { user_focus: ((m.user_focus + 1) % 4) as usize, ..m }
    } else if k is BackTab || k is Up {
        AppModel { user_focus: ((m.user_focus + 3) % 4) as usize, ..m }
    } else if k is Left {
        AppModel { screen: Screen::Partition, ..m }
    } else if k is Enter {
        user_enter(m)
    } else if m.user_focus == 0 {
        AppModel { user_name: edit_text(m.user_name, k), ..m }
    } else if m.user_focus == 1 {
        AppModel { user_realname: edit_text(m.user_realname, k), ..m }
    } else if m.user_focus == 2 {
        AppModel { user_password: edit_text(m.user_password, k), ..m }
    } else {
        AppModel { user_password_confirm: edit_text(m.user_password_confirm, k), ..m }
    }
}

/// Enter on the keyboard screen: a valid layout, and a variant that is
/// empty or valid.
pub open spec fn keyboard_enter(m: AppModel) -> AppModel {
    if m.kb_layout.len() == 0 {
        AppModel { error: Some(MSG_LAYOUT_EMPTY@), ..m }
    } else if !keymap_ok(m.kb_layout) {
        AppModel { error: Some(MSG_LAYOUT_CHARS@), ..m }
    } else if m.kb_variant.len() > 0 && !keymap_ok(m.kb_variant) {
        AppModel { error: Some(MSG_VARIANT_CHARS@), ..m }
    } else {
        AppModel { screen: Screen::Summary, ..m }
    }
}

/// The keyboard screen.
pub open spec fn step_keyboard(m: AppModel, k: Key) -> AppModel {
    if k is Tab || k is Down || k is BackTab || k is Up {
        AppModel { keyboard_focus: ((m.keyboard_focus + 1) % 2) as usize, ..m }
    } else if k is Left {
        AppModel { screen: Screen::User, ..m }
    } else if k is Enter {
        keyboard_enter(m)
    } else if m.keyboard_focus == 0 {
        AppModel { kb_layout: edit_text(m.kb_layout, k), ..m }
    } else {
        AppModel { kb_variant: edit_text(m.kb_variant, k), ..m }
    }
}

/// The summary screen: Enter confirms, Left or Backspace goes back.
pub open spec fn step_summary(m: AppModel, k: Key) -> AppModel {
    if k is Enter {
        AppModel { outcome: Some(Outcome::Confirmed), ..m }
    } else if k is Left || k is Backspace {
        AppModel { screen: Screen::Keyboard, ..m }
    } else {
        m
    }
}

/// The form after one key: Esc or Control-C cancel; any other key clears
/// the last refusal and goes to the current screen.
pub open spec fn step(m: AppModel, k: Key) -> AppModel {
    if is_cancel(k) {
        AppModel { outcome: Some(Outcome::Cancelled), ..m }
    } else {
        let m1 = AppModel { error: None, ..m };
        match m.screen {
            Screen::DeviceSelect => step_devices(m1, k),
            Screen::Partition => step_partition(m1, k),
            Screen::User => step_user(m1, k),
            Screen::Keyboard => step_keyboard(m1, k),
            Screen::Summary => step_summary(m1, k),
        }
    }
}

/// The form as it opens: the first device highlighted, the fields filled
/// from the spec (ESP 512 and root 0 = rest, layout `us`, everything else
/// empty when the spec is silent).
pub open spec fn initial_model(
    esp: Option<u32>,
    root: Option<u32>,
    name: Option<Seq<char>>,
    real_name: Option<Seq<char>>,
    shell: Option<Seq<char>>,
    groups: Option<Seq<Seq<char>>>,
    layout: Option<Seq<char>>,
    variant: Option<Seq<char>>,
    devices: Seq<UsbDeviceModel>,
) -> AppModel {
    AppModel {
        screen: Screen::DeviceSelect,
        outcome: None,
        error: None,
        devices,
        device_idx: 0,
        partition_focus: 0,
        esp_mib_input: match esp {
            Some(v) => dec_digits(v as nat),
            None => TUI_DEFAULT_ESP@,
        },
        root_gib_input: match root {
            Some(v) => dec_digits(v as nat),
            None => "0"@,
        },
        user_focus: 0,
        user_name: match name {
            Some(n) => n,
            None => seq![],
        },
        user_realname: match real_name {
            Some(n) => n,
            None => seq![],
        },
        user_password: seq![],
        user_password_confirm: seq![],
        show_passwords: false,
        keyboard_focus: 0,
        kb_layout: match layout {
            Some(l) => l,
            None => TUI_DEFAULT_LAYOUT@,
        },
        kb_variant: match variant {
            Some(v) => v,
            None => seq![],
        },
        spec_user_shell: shell,
        spec_user_groups: groups,
    }
}

/// `String::pop`, dropping the removed character.
fn pop_char(s: &mut String)
    ensures
        final(s)@ == pop_last(old(s)@),
{
    let v = chars_of(s.as_str());
    if v.len() > 0 {
        *s = string_of(&v, 0, v.len() - 1);
        assert(v@.subrange(0, v.len() - 1) =~= v@.drop_last());
    }
}

/// Applies [`edit_text`].
fn edit_text_in(buf: &mut String, k: Key)
    ensures
        final(buf)@ == edit_text(old(buf)@, k),
{
    match k {
        Key::Char { c, .. } => push_char(buf, c),
        Key::Backspace => pop_char(buf),
        _ => {},
    }
}

/// Applies [`edit_digits`].
fn edit_digits_in(buf: &mut String, k: Key)
    ensures
        final(buf)@ == edit_digits(old(buf)@, k),
{
    match k {
        Key::Char { c, .. } => {
            if '0' <= c && c <= '9' && chars_of(buf.as_str()).len() < 10 {
                push_char(buf, c);
            }
        },
        Key::Backspace => pop_char(buf),
        _ => {},
    }
}

/// Whether every character is in `[a-z0-9_]`.
fn name_chars_ok(s: &str) -> (b: bool)
    ensures
        b == all_name_chars(s@),
{
    let v = chars_of(s);
    let mut i: usize = 0;
    while i < v.len()
        invariant
            i <= v.len(),
            v@ == s@,
            forall|j: int| 0 <= j < i ==> is_name_char(#[trigger] v@[j]),
        decreases v.len() - i,
    {
        let c = v[i];
        if !(('a' <= c && c <= 'z') || ('0' <= c && c <= '9') || c == '_') {
            assert(!is_name_char(v@[i as int]));
            return false;
        }
        i = i + 1;
    }
    true
}

/// A copy of an optional string.
fn copy_opt(o: &Option<String>) -> (r: Option<String>)
    ensures
        opt_string(r) == opt_string(*o),
{
    match o {
        Some(s) => Some(s.clone()),
        None => None,
    }
}

impl App {
    /// The form as it opens for `spec` and the detected `devices`, as
    /// [`initial_model`] says.
    pub fn new(spec: &TargetOsSpec, devices: Vec<UsbDevice>) -> (app: App)
        ensures
            app@ == initial_model(
                match spec.partitions { Some(p) => p.esp_mib, None => None },
                match spec.partitions { Some(p) => p.root_gib, None => None },
                match spec.user { Some(u) => opt_string(u.name), None => None },
                match spec.user { Some(u) => opt_string(u.real_name), None => None },
                match spec.user { Some(u) => opt_string(u.shell), None => None },
                match spec.user {
                    Some(u) => match u.groups {
                        Some(g) => Some(string_list(g@)),
                        None => None,
                    },
                    None => None,
                },
                match spec.keyboard { Some(k) => opt_string(k.layout), None => None },
                match spec.keyboard { Some(k) => opt_string(k.variant), None => None },
                devices@.map_values(|d: UsbDevice| d@),
            ),
            devices@.len() > 0 ==> model_wf(app@),
    {
        let (esp, root) = match &spec.partitions {
            Some(p) => (p.esp_mib, p.root_gib),
            None => (None, None),
        };
        let esp_mib_input = match esp {
            Some(v) => decimal_string(v as u64),
            None => String::from_str(TUI_DEFAULT_ESP),
        };
        let root_gib_input = match root {
            Some(v) => decimal_string(v as u64),
            None => String::from_str("0"),
        };
        let (user_name, user_realname, spec_user_shell, spec_user_groups) = match &spec.user {
            Some(u) => (
                match &u.name {
                    Some(n) => n.clone(),
                    None => String::new(),
                },
                match &u.real_name {
                    Some(n) => n.clone(),
                    None => String::new(),
                },
                copy_opt(&u.shell),
                match &u.groups {
                    Some(g) => Some(copy_strings(g)),
                    None => None,
                },
            ),
            None => (String::new(), String::new(), None, None),
        };
        let (kb_layout, kb_variant) = match &spec.keyboard {
            Some(k) => (
                match &k.layout {
                    Some(l) => l.clone(),
                    None => String::from_str(TUI_DEFAULT_LAYOUT),
                },
                match &k.variant {
                    Some(v) => v.clone(),
                    None => String::new(),
                },
            ),
            None => (String::from_str(TUI_DEFAULT_LAYOUT), String::new()),
        };
        let app = App {
            screen: Screen::DeviceSelect,
            outcome: None,
            error: None,
            devices,
            device_idx: 0,
            partition_focus: 0,
            esp_mib_input,
            root_gib_input,
            user_focus: 0,
            user_name,
            user_realname,
            user_password: String::new(),
            user_password_confirm: String::new(),
            show_passwords: false,
            keyboard_focus: 0,
            kb_layout,
            kb_variant,
            spec_user_shell,
            spec_user_groups,
        };
        proof {
            reveal_strlit("0");
        }
        assert(app@ =~= initial_model(
            esp,
            root,
            match spec.user { Some(u) => opt_string(u.name), None => None },
            match spec.user { Some(u) => opt_string(u.real_name), None => None },
            match spec.user { Some(u) => opt_string(u.shell), None => None },
            match spec.user {
                Some(u) => match u.groups {
                    Some(g) => Some(string_list(g@)),
                    None => None,
                },
                None => None,
            },
            match spec.keyboard { Some(k) => opt_string(k.layout), None => None },
            match spec.keyboard { Some(k) => opt_string(k.variant), None => None },
            app.devices@.map_values(|d: UsbDevice| d@),
        ));
        app
    }

    fn handle_devices(&mut self, k: Key)
        requires
            model_wf(old(self)@),
        ensures
            final(self)@ == step_devices(old(self)@, k),
    {
        let ghost m = self@;
        assert(self.device_idx < self.devices@.map_values(|d: UsbDevice| d@).len());
        assert(self.device_idx < self.devices.len());
        let up = match k {
            Key::Up => true,
            Key::Char { c, .. } => c == 'k',
            _ => false,
        };
        let down = match k {
            Key::Down => true,
            Key::Char { c, .. } => c == 'j',
            _ => false,
        };
        if up {
            if self.device_idx > 0 {
                self.device_idx = self.device_idx - 1;
            }
        } else if down {
            if self.device_idx + 1 < self.devices.len() {
                self.device_idx = self.device_idx + 1;
            }
        } else if matches!(k, Key::Enter) {
            let d = &self.devices[self.device_idx];
            if !d.removable {
                let mut msg: Vec<char> = Vec::new();
                extend_str(&mut msg, d.path.as_str());
                extend_str(&mut msg, " is not removable; refusing.");
                self.error = Some(string_from(&msg));
            } else {
                self.screen = Screen::Partition;
            }
        }
        assert(self@ =~= step_devices(m, k));
    }

    fn partition_enter(&mut self)
        requires
            model_wf(old(self)@),
        ensures
            final(self)@ == partition_enter(old(self)@),
    {
        let ghost m = self@;
        let esp = parse_u32_vec(&trim_vec(&chars_of(self.esp_mib_input.as_str())));
        let esp = match esp {
            Some(v) => if 64 <= v && v <= 8192 {
                v
            } else {
                self.error = Some(String::from_str(MSG_ESP_RANGE));
                assert(self@ =~= partition_enter(m));
                return;
            },
            None => {
                self.error = Some(String::from_str(MSG_ESP_RANGE));
                assert(self@ =~= partition_enter(m));
                return;
            },
        };
        let root = parse_u32_vec(&trim_vec(&chars_of(self.root_gib_input.as_str())));
        match root {
            None => {
                self.error = Some(String::from_str(MSG_ROOT_NUMBER));
            },
            Some(r) => {
                let size = self.devices[self.device_idx].size_bytes;
                let d = ((size / 1_048_576) % 0x1_0000_0000) as u32;
                let max = d.saturating_sub(esp + 8) / 1024;
                assert(max == max_root_gib_spec(size, esp));
                if r != 0 && r > max {
                    let mut msg: Vec<char> = Vec::new();
                    extend_str(&mut msg, "root ");
                    push_decimal(&mut msg, r as u64);
                    extend_str(&mut msg, " GiB exceeds available ");
                    push_decimal(&mut msg, max as u64);
                    extend_str(&mut msg, " GiB after ESP");
                    self.error = Some(string_from(&msg));
                } else {
                    self.screen = Screen::User;
                }
            },
        }
        assert(self@ =~= partition_enter(m));
    }

    fn handle_partition(&mut self, k: Key)
        requires
            model_wf(old(self)@),
        ensures
            final(self)@ == step_partition(old(self)@, k),
    {
        let ghost m = self@;
        match k {
            Key::Tab | Key::Down | Key::BackTab | Key::Up => {
                self.partition_focus = (self.partition_focus + 1) % 2;
            },
            Key::Enter => {
                self.partition_enter();
                return;
            },
            Key::Left => {
                self.screen = Screen::DeviceSelect;
            },
            _ => {
                if self.partition_focus == 0 {
                    edit_digits_in(&mut self.esp_mib_input, k);
                } else {
                    edit_digits_in(&mut self.root_gib_input, k);
                }
            },
        }
        assert(self@ =~= step_partition(m, k));
    }

    fn user_enter(&mut self)
        ensures
            final(self)@ == user_enter(old(self)@),
    {
        let ghost m = self@;
        proof {
            reveal_strlit("root");
        }
        let name = chars_of(self.user_name.as_str());
        if name.len() == 0 || vec_eq(&name, &chars_of("root")) {
            self.error = Some(String::from_str(MSG_USERNAME_SET));
        } else if !name_chars_ok(self.user_name.as_str()) {
            self.error = Some(String::from_str(MSG_USERNAME_CHARS));
        } else if self.user_password.as_str().as_bytes().len() < 6 {
            self.error = Some(String::from_str(MSG_PASSWORD_SHORT));
        } else if !vec_eq(
            &chars_of(self.user_password.as_str()),
            &chars_of(self.user_password_confirm.as_str()),
        ) {
            self.error = Some(String::from_str(MSG_PASSWORD_MISMATCH));
        } else {
            self.screen = Screen::Keyboard;
        }
        assert(self@ =~= user_enter(m));
    }

    fn handle_user(&mut self, k: Key)
        ensures
            final(self)@ == step_user(old(self)@, k),
    {
        let ghost m = self@;
        match k {
            Key::F2 => {
                self.show_passwords = !self.show_passwords;
            },
            Key::Tab | Key::Down => {
                self.user_focus = ((self.user_focus % 4) + 1) % 4;
                assert(self.user_focus == (m.user_focus + 1) % 4) by (nonlinear_arith)
                    requires
                        self.user_focus == ((m.user_focus % 4) + 1) % 4,
                ;
            },
            Key::BackTab | Key::Up => {
                self.user_focus = ((self.user_focus % 4) + 3) % 4;
                assert(self.user_focus == (m.user_focus + 3) % 4) by (nonlinear_arith)
                    requires
                        self.user_focus == ((m.user_focus % 4) + 3) % 4,
                ;
            },
            Key::Left => {
                self.screen = Screen::Partition;
            },
            Key::Enter => {
                self.user_enter();
                return;
            },
            _ => {
                if self.user_focus == 0 {
                    edit_text_in(&mut self.user_name, k);
                } else if self.user_focus == 1 {
                    edit_text_in(&mut self.user_realname, k);
                } else if self.user_focus == 2 {
                    edit_text_in(&mut self.user_password, k);
                } else {
                    edit_text_in(&mut self.user_password_confirm, k);
                }
            },
        }
        assert(self@ =~= step_user(m, k));
    }

    fn keyboard_enter(&mut self)
        ensures
            final(self)@ == keyboard_enter(old(self)@),
    {
        let ghost m = self@;
        if self.kb_layout.as_str().is_empty() {
            self.error = Some(String::from_str(MSG_LAYOUT_EMPTY));
        } else if !name_chars_ok(self.kb_layout.as_str()) {
            self.error = Some(String::from_str(MSG_LAYOUT_CHARS));
        } else if !self.kb_variant.as_str().is_empty() && !name_chars_ok(self.kb_variant.as_str()) {
            self.error = Some(String::from_str(MSG_VARIANT_CHARS));
        } else {
            self.screen = Screen::Summary;
        }
        assert(self@ =~= keyboard_enter(m));
    }

    fn handle_keyboard(&mut self, k: Key)
        ensures
            final(self)@ == step_keyboard(old(self)@, k),
    {
        let ghost m = self@;
        match k {
            Key::Tab | Key::Down | Key::BackTab | Key::Up => {
                self.keyboard_focus = ((self.keyboard_focus % 2) + 1) % 2;
                assert(self.keyboard_focus == (m.keyboard_focus + 1) % 2) by (nonlinear_arith)
                    requires
                        self.keyboard_focus == ((m.keyboard_focus % 2) + 1) % 2,
                ;
            },
            Key::Left => {
                self.screen = Screen::User;
            },
            Key::Enter => {
                self.keyboard_enter();
                return;
            },
            _ => {
                if self.keyboard_focus == 0 {
                    edit_text_in(&mut self.kb_layout, k);
                } else {
                    edit_text_in(&mut self.kb_variant, k);
                }
            },
        }
        assert(self@ =~= step_keyboard(m, k));
    }

    fn handle_summary(&mut self, k: Key)
        ensures
            final(self)@ == step_summary(old(self)@, k),
    {
        let ghost m = self@;
        match k {
            Key::Enter => {
                self.outcome = Some(Outcome::Confirmed);
            },
            Key::Left | Key::Backspace => {
                self.screen = Screen::Keyboard;
            },
            _ => {},
        }
        assert(self@ =~= step_summary(m, k));
    }

    /// One key press, as [`step`] says.
    pub fn handle_key(&mut self, k: Key)
        requires
            model_wf(old(self)@),
        ensures
            final(self)@ == step(old(self)@, k),
    {
        let ghost m = self@;
        let cancel = match k {
            Key::Esc => true,
            Key::Char { c, ctrl } => c == 'c' && ctrl,
            _ => false,
        };
        if cancel {
            self.outcome = Some(Outcome::Cancelled);
            assert(self@ =~= step(m, k));
            return;
        }
        self.error = None;
        let ghost m1 = self@;
        assert(m1 =~= AppModel { error: None, ..m });
        match self.screen {
            Screen::DeviceSelect => self.handle_devices(k),
            Screen::Partition => self.handle_partition(k),
            Screen::User => self.handle_user(k),
            Screen::Keyboard => self.handle_keyboard(k),
            Screen::Summary => self.handle_summary(k),
        }
    }
}

/// Why the form's answers do not make a plan.
#[derive(Debug, Clone, PartialEq, Eq)]
pub enum FormError {
    /// The ESP field is not a number.
    EspNotNumber,
    /// The root field is not a number.
    RootNotNumber,
    /// The password hash is refused.
    Hash(PlanError),
}

/// The root size the field asks for: 0 means the rest of the disk.
pub open spec fn root_choice(v: u32) -> Option<u32> {
    if v == 0 { None } else { Some(v) }
}

/// The hash checks of `validate_hash`: SHA-512 crypt and at least 20
/// bytes.
pub open spec fn hash_ok(h: Seq<char>) -> bool {
    crate::text::starts_with(h, "$6$"@) && encode_utf8(h).len() >= 20
}

impl App {
    /// The plan from the form's answers and the hash of the typed
    /// password: the partition sizes as the fields say (root 0 = rest), the
    /// user with the spec's shell and groups (or the defaults), uid and
    /// gid 1000, the keyboard (an empty variant meaning none), network off.
    pub fn build_plan(&self, password_hash: String) -> (r: Result<InstallationPlan, FormError>)
        ensures
            match r {
                Ok(p) => {
                    &&& parse_u32(trim(self.esp_mib_input@)) == Some(p.partition.esp_mib)
                    &&& (parse_u32(trim(self.root_gib_input@)) matches Some(v) && p.partition.root_gib
                        == root_choice(v))
                    &&& hash_ok(password_hash@)
                    &&& p.user.name@ == self.user_name@
                    &&& p.user.real_name@ == self.user_realname@
                    &&& p.user.password_hash@ == password_hash@
                    &&& p.user.shell@ == (match self@.spec_user_shell {
                        Some(s) => s,
                        None => DEFAULT_SHELL@,
                    })
                    &&& string_list(p.user.groups@) == (match self@.spec_user_groups {
                        Some(g) => g,
                        None => default_groups(),
                    })
                    &&& p.user.uid == 1000 && p.user.gid == 1000
                    &&& p.keyboard.layout@ == self.kb_layout@
                    &&& opt_string(p.keyboard.variant) == (if self.kb_variant@.len() == 0 {
                        None
                    } else {
                        Some(self.kb_variant@)
                    })
                    &&& !p.network.enabled_at_boot
                },
                Err(FormError::EspNotNumber) => parse_u32(trim(self.esp_mib_input@)) is None,
                Err(FormError::RootNotNumber) => parse_u32(trim(self.esp_mib_input@)) is Some
                    && parse_u32(trim(self.root_gib_input@)) is None,
                Err(FormError::Hash(_)) => parse_u32(trim(self.esp_mib_input@)) is Some
                    && parse_u32(trim(self.root_gib_input@)) is Some && !hash_ok(password_hash@),
            },
    {
        let esp_mib = match parse_u32_vec(&trim_vec(&chars_of(self.esp_mib_input.as_str()))) {
            Some(v) => v,
            None => return Err(FormError::EspNotNumber),
        };
        let root_gib = match parse_u32_vec(&trim_vec(&chars_of(self.root_gib_input.as_str()))) {
            Some(v) => if v == 0 { None } else { Some(v) },
            None => return Err(FormError::RootNotNumber),
        };
        match validate_hash(password_hash.as_str()) {
            Ok(()) => {},
            Err(e) => return Err(FormError::Hash(e)),
        }
        let shell = match &self.spec_user_shell {
            Some(s) => s.clone(),
            None => String::from_str(DEFAULT_SHELL),
        };
        let groups = match &self.spec_user_groups {
            Some(g) => copy_strings(g),
            None => default_group_list(),
        };
        let variant = if self.kb_variant.as_str().unicode_len() == 0 {
            None
        } else {
            Some(self.kb_variant.clone())
        };
        Ok(InstallationPlan {
            partition: PartitionPlan { esp_mib, root_gib },
            user: ResolvedUser {
                name: self.user_name.clone(),
                real_name: self.user_realname.clone(),
                password_hash,
                shell,
                groups,
                uid: 1000,
                gid: 1000,
            },
            keyboard: ResolvedKeyboard { layout: self.kb_layout.clone(), variant },
            network: ResolvedNetwork { enabled_at_boot: false },
        })
    }
}

/// The title of each screen.
pub open spec fn header_spec(s: Screen) -> Seq<char> {
    match s {
        Screen::DeviceSelect => "WriteOnce Installer \u{b7} [1/5] Select target device"@,
        Screen::Partition => "WriteOnce Installer \u{b7} [2/5] Partition layout"@,
        Screen::User => "WriteOnce Installer \u{b7} [3/5] User account"@,
        Screen::Keyboard => "WriteOnce Installer \u{b7} [4/5] Keyboard"@,
        Screen::Summary => "WriteOnce Installer \u{b7} [5/5] Review + confirm"@,
    }
}

/// The title of a screen.
pub fn header_title(s: Screen) -> (t: &'static str)
    ensures
        t@ == header_spec(s),
{
    match s {
        Screen::DeviceSelect => "WriteOnce Installer \u{b7} [1/5] Select target device",
        Screen::Partition => "WriteOnce Installer \u{b7} [2/5] Partition layout",
        Screen::User => "WriteOnce Installer \u{b7} [3/5] User account",
        Screen::Keyboard => "WriteOnce Installer \u{b7} [4/5] Keyboard",
        Screen::Summary => "WriteOnce Installer \u{b7} [5/5] Review + confirm",
    }
}

/// The key hints of each screen.
pub open spec fn hints_spec(s: Screen) -> Seq<char> {
    match s {
        Screen::DeviceSelect => "\u{2191}\u{2193} select   Enter continue   Esc cancel"@,
        Screen::Partition => "Tab cycle   Enter continue   \u{2190}Back   Esc cancel"@,
        Screen::User => "Tab cycle   F2 toggle password visibility   Enter continue   \u{2190}Back   Esc cancel"@,
        Screen::Keyboard => "Tab cycle   Enter continue   \u{2190}Back   Esc cancel"@,
        Screen::Summary => "Enter to CONFIRM and install   \u{2190}Back   Esc cancel"@,
    }
}

fn hints(s: Screen) -> (t: &'static str)
    ensures
        t@ == hints_spec(s),
{
    match s {
        Screen::DeviceSelect => "\u{2191}\u{2193} select   Enter continue   Esc cancel",
        Screen::Partition => "Tab cycle   Enter continue   \u{2190}Back   Esc cancel",
        Screen::User => "Tab cycle   F2 toggle password visibility   Enter continue   \u{2190}Back   Esc cancel",
        Screen::Keyboard => "Tab cycle   Enter continue   \u{2190}Back   Esc cancel",
        Screen::Summary => "Enter to CONFIRM and install   \u{2190}Back   Esc cancel",
    }
}

impl App {
    /// The footer: the screen's key hints, after the last refusal when
    /// there is one.
    pub fn footer_text(&self) -> (t: String)
        ensures
            t@ == match self@.error {
                Some(e) => "\u{26a0} "@ + e + "    \u{2502}    "@ + hints_spec(self.screen),
                None => hints_spec(self.screen),
            },
    {
        match &self.error {
            Some(e) => {
                let mut v = chars_of("\u{26a0} ");
                extend_str(&mut v, e.as_str());
                extend_str(&mut v, "    \u{2502}    ");
                extend_str(&mut v, hints(self.screen));
                string_from(&v)
            },
            None => String::from_str(hints(self.screen)),
        }
    }

    /// What a password field shows: the text when passwords are shown,
    /// otherwise one dot per byte of it.
    pub fn masked(&self, text: &str) -> (t: String)
        ensures
            self.show_passwords ==> t@ == text@,
            !self.show_passwords ==> t@ == Seq::new(encode_utf8(text@).len(), |i: int| '\u{25cf}'),
    {
        if self.show_passwords {
            return String::from_str(text);
        }
        let n = text.as_bytes().len();
        let mut v: Vec<char> = Vec::new();
        let mut i: usize = 0;
        while i < n
            invariant
                i <= n,
                v@ == Seq::new(i as nat, |k: int| '\u{25cf}'),
            decreases n - i,
        {
            v.push('\u{25cf}');
            i = i + 1;
            assert(v@ =~= Seq::new(i as nat, |k: int| '\u{25cf}'));
        }
        string_from(&v)
    }

    /// The label of the root field, with the room left after the ESP the
    /// field holds (0 when it is not a number; the sum wraps as `u32`
    /// arithmetic does in a release build).
    pub fn root_label(&self) -> (t: String)
        requires
            model_wf(self@),
        ensures
            ({
                let esp = match parse_u32(trim(self.esp_mib_input@)) {
                    Some(v) => v,
                    None => 0,
                };
                let d = disk_mib(self@.devices[self.device_idx as int].size_bytes) as int;
                let need = ((esp as int + 8) % 0x1_0000_0000) as int;
                let max = if d >= need { (d - need) / 1024 } else { 0 };
                t@ == " Root size (GiB) \u{2014} 0 = use rest (max "@ + dec_digits(max as nat) + " GiB)"@
            }),
    {
        assert(self.device_idx < self.devices@.map_values(|d: UsbDevice| d@).len());
        let esp = match parse_u32_vec(&trim_vec(&chars_of(self.esp_mib_input.as_str()))) {
            Some(v) => v,
            None => 0,
        };
        let size = self.devices[self.device_idx].size_bytes;
        let d = ((size / 1_048_576) % 0x1_0000_0000) as u32;
        let need = esp.wrapping_add(8);
        let max = d.saturating_sub(need) / 1024;
        let mut v = chars_of(" Root size (GiB) \u{2014} 0 = use rest (max ");
        push_decimal(&mut v, max as u64);
        extend_str(&mut v, " GiB)");
        string_from(&v)
    }

    /// The summary lines after the device line, as label and value:
    /// partitioning, user, shell, groups and keyboard.
    pub fn summary_values(&self) -> (r: Vec<(String, String)>)
        ensures
            r@.len() == 5,
            ({
                let esp = match parse_u32(trim(self.esp_mib_input@)) {
                    Some(v) => v,
                    None => 0,
                };
                let root = match parse_u32(trim(self.root_gib_input@)) {
                    Some(v) => if v == 0 { "rest of disk"@ } else { dec_digits(v as nat) + " GiB"@ },
                    None => "rest of disk"@,
                };
                &&& r@[0].0@ == " Partitioning "@
                &&& r@[0].1@ == "ESP "@ + dec_digits(esp as nat) + " MiB \u{b7} root "@ + root
                &&& r@[1].0@ == " User         "@
                &&& r@[1].1@ == self.user_name@ + " (uid 1000, "@ + (if self.user_realname@.len() == 0 {
                    "no real name"@
                } else {
                    self.user_realname@
                }) + ")"@
                &&& r@[2].0@ == " Shell        "@
                &&& r@[2].1@ == (match self@.spec_user_shell {
                    Some(s) => s,
                    None => DEFAULT_SHELL@,
                })
                &&& r@[3].0@ == " Groups       "@
                &&& r@[3].1@ == crate::text::join(
                    match self@.spec_user_groups {
                        Some(g) => g,
                        None => default_groups(),
                    },
                    ","@,
                )
                &&& r@[4].0@ == " Keyboard     "@
                &&& r@[4].1@ == self.kb_layout@ + (if self.kb_variant@.len() == 0 {
                    Seq::<char>::empty()
                } else {
                    " ("@ + self.kb_variant@ + ")"@
                })
            }),
    {
        let esp = match parse_u32_vec(&trim_vec(&chars_of(self.esp_mib_input.as_str()))) {
            Some(v) => v,
            None => 0,
        };
        let mut part = chars_of("ESP ");
        push_decimal(&mut part, esp as u64);
        extend_str(&mut part, " MiB \u{b7} root ");
        match parse_u32_vec(&trim_vec(&chars_of(self.root_gib_input.as_str()))) {
            Some(v) => if v == 0 {
                extend_str(&mut part, "rest of disk");
            } else {
                push_decimal(&mut part, v as u64);
                extend_str(&mut part, " GiB");
            },
            None => extend_str(&mut part, "rest of disk"),
        }
        let mut user = chars_of(self.user_name.as_str());
        extend_str(&mut user, " (uid 1000, ");
        if self.user_realname.as_str().unicode_len() == 0 {
            extend_str(&mut user, "no real name");
        } else {
            extend_str(&mut user, self.user_realname.as_str());
        }
        extend_str(&mut user, ")");
        let shell = match &self.spec_user_shell {
            Some(s) => s.clone(),
            None => String::from_str(DEFAULT_SHELL),
        };
        let groups = match &self.spec_user_groups {
            Some(g) => copy_strings(g),
            None => default_group_list(),
        };
        let mut gv: Vec<Vec<char>> = Vec::new();
        let mut i: usize = 0;
        while i < groups.len()
            invariant
                i <= groups.len(),
                crate::text::views(gv@) == string_list(groups@).take(i as int),
            decreases groups.len() - i,
        {
            let ghost before = crate::text::views(gv@);
            gv.push(chars_of(groups[i].as_str()));
            assert(crate::text::views(gv@) =~= before.push(groups@[i as int]@));
            assert(string_list(groups@).take(i + 1) =~= string_list(groups@).take(i as int).push(groups@[i as int]@));
            i = i + 1;
        }
        assert(string_list(groups@).take(groups.len() as int) =~= string_list(groups@));
        let joined = crate::text::join_vecs(&gv, &chars_of(","));
        let mut kb = chars_of(self.kb_layout.as_str());
        if self.kb_variant.as_str().unicode_len() > 0 {
            extend_str(&mut kb, " (");
            extend_str(&mut kb, self.kb_variant.as_str());
            extend_str(&mut kb, ")");
        }
        let r = vec![
            (String::from_str(" Partitioning "), string_from(&part)),
            (String::from_str(" User         "), string_from(&user)),
            (String::from_str(" Shell        "), shell),
            (String::from_str(" Groups       "), string_from(&joined)),
            (String::from_str(" Keyboard     "), string_from(&kb)),
        ];
        r
    }
}

/// Every key keeps the form well-formed: a device stays highlighted and
/// each focus names a field of its screen.
pub proof fn lemma_step_keeps_wf(m: AppModel, k: Key)
    requires
        model_wf(m),
    ensures
        model_wf(step(m, k)),
{
}

/// Esc and Control-C cancel the form from any screen.
pub proof fn lemma_cancel_keys_cancel(m: AppModel, k: Key)
    requires
        is_cancel(k),
    ensures
        step(m, k).outcome == Some(Outcome::Cancelled),
{
}

/// The form is confirmed only by Enter on the summary screen.
pub proof fn lemma_confirm_only_on_summary(m: AppModel, k: Key)
    requires
        m.outcome != Some(Outcome::Confirmed),
        step(m, k).outcome == Some(Outcome::Confirmed),
    ensures
        m.screen == Screen::Summary,
        k is Enter,
{
}

/// The partition screen lets the operator on only with an ESP of 64 to
/// 8192 MiB and a root size that is a number no larger than the room left
/// (0 meaning the rest).
pub proof fn lemma_partition_gate(m: AppModel, k: Key)
    requires
        model_wf(m),
        m.screen == Screen::Partition,
        step(m, k).screen == Screen::User,
    ensures
        parse_u32(trim(m.esp_mib_input)) matches Some(esp) && 64 <= esp && esp <= 8192
            && (parse_u32(trim(m.root_gib_input)) matches Some(r) && (r == 0 || r <= max_root_gib_spec(
            m.devices[m.device_idx as int].size_bytes,
            esp,
        ))),
{
}

/// The user screen lets the operator on only with a username that is set,
/// not `root` and in `[a-z0-9_]`, and a password of at least six bytes
/// typed the same twice.
pub proof fn lemma_user_gate(m: AppModel, k: Key)
    requires
        m.screen == Screen::User,
        step(m, k).screen == Screen::Keyboard,
    ensures
        m.user_name.len() > 0,
        m.user_name != "root"@,
        all_name_chars(m.user_name),
        encode_utf8(m.user_password).len() >= 6,
        m.user_password == m.user_password_confirm,
{
}

/// The keyboard screen lets the operator on only with a valid layout and a
/// variant that is empty or valid.
pub proof fn lemma_keyboard_gate(m: AppModel, k: Key)
    requires
        m.screen == Screen::Keyboard,
        step(m, k).screen == Screen::Summary,
    ensures
        keymap_ok(m.kb_layout),
        m.kb_variant.len() == 0 || keymap_ok(m.kb_variant),
{
}

/// Backspace takes back a typed character, in a text field and in a
/// number field with room for it.
pub proof fn lemma_backspace_undoes_typing(b: Seq<char>, c: char, ctrl: bool)
    ensures
        edit_text(edit_text(b, Key::Char { c, ctrl }), Key::Backspace) == b,
        ('0' <= c && c <= '9' && b.len() < 10) ==> edit_digits(
            edit_digits(b, Key::Char { c, ctrl }),
            Key::Backspace,
        ) == b,
{
    assert(b.push(c).drop_last() =~= b);
}

} // verus!
