//! State of the manager window's panels: tabs, the daemon status line,
//! the key-capture dialog, the font list, the characters panel and the
//! profile dialogs. Drawing the panels is left to the window code.

use vstd::prelude::*;
use crate::color::Color32;
use crate::key_capture::{CaptureResult, CaptureState, described};
use crate::name_map::NameMap;
use crate::hotkey::{HotkeyBinding, HotkeyModel};
use crate::name_map::Duplicate;
use crate::profile::{CustomWindowRuleModel, CycleGroupModel, Profile, ProfileModel, rule_views};
use crate::text::{
    append_signed_decimal, has_prefix, owned, parse_usize, parse_usize_str, replace_all, replace_str, signed_decimal,
    split_at_char, split_on, starts_with, str_eq,
};

verus! {

/// The tabs of the manager window.
#[derive(Debug, PartialEq, Eq, Clone, Copy, Structural)]
pub enum GuiTab {
    Behavior,
    Appearance,
    Hotkeys,
    Characters,
    Sources,
}

/// State of the preview daemon process.
#[derive(Debug, Clone, Copy, PartialEq, Eq, Structural)]
pub enum DaemonStatus {
    Starting,
    Running,
    Stopped,
    /// Exited unsuccessfully, with its exit code when it has one.
    Crashed(Option<i32>),
}

/// The status line of a daemon state.
pub open spec fn status_label(s: DaemonStatus) -> Seq<char> {
    match s {
        DaemonStatus::Running => "Preview daemon running"@,
        DaemonStatus::Starting => "Preview daemon starting..."@,
        DaemonStatus::Stopped => "Preview daemon stopped"@,
        DaemonStatus::Crashed(Some(code)) => "Preview daemon crashed (exit "@ + signed_decimal(code as int) + ")"@,
        DaemonStatus::Crashed(None) => "Preview daemon crashed"@,
    }
}

/// The colour of a daemon state's status line: green when running, amber
/// when starting, red otherwise.
pub open spec fn status_color(s: DaemonStatus) -> Color32 {
    match s {
        DaemonStatus::Running => Color32 { r: 100, g: 200, b: 100, a: 255 },
        DaemonStatus::Starting => Color32 { r: 255, g: 200, b: 0, a: 255 },
        _ => Color32 { r: 200, g: 0, b: 0, a: 255 },
    }
}

impl DaemonStatus {
    /// The colour the status line is drawn in.
    pub fn color(&self) -> (c: Color32)
        ensures
            c == status_color(*self),
    {
        match self {
            DaemonStatus::Running => Color32 { r: 100, g: 200, b: 100, a: 255 },
            DaemonStatus::Starting => Color32 { r: 255, g: 200, b: 0, a: 255 },
            _ => Color32 { r: 200, g: 0, b: 0, a: 255 },
        }
    }

    /// The status line shown in the window.
    pub fn label(&self) -> (s: String)
        ensures
            s@ == status_label(*self),
    {
        match self {
            DaemonStatus::Running => owned("Preview daemon running"),
            DaemonStatus::Starting => owned("Preview daemon starting..."),
            DaemonStatus::Stopped => owned("Preview daemon stopped"),
            DaemonStatus::Crashed(code) => match code {
                Some(code) => {
                    let mut s = owned("Preview daemon crashed (exit ");
                    append_signed_decimal(&mut s, *code);
                    s.append(")");
                    s
                },
                None => owned("Preview daemon crashed"),
            },
        }
    }

    /// The state after the daemon exited: stopped on success, crashed
    /// (with the exit code, if any) otherwise.
    pub fn from_exit(success: bool, code: Option<i32>) -> (s: DaemonStatus)
        ensures
            s == (if success { DaemonStatus::Stopped } else { DaemonStatus::Crashed(code) }),
    {
        if success {
            DaemonStatus::Stopped
        } else {
            DaemonStatus::Crashed(code)
        }
    }
}

/// What a key capture dialog binds.
#[derive(Debug, Clone, PartialEq, Eq)]
pub enum CaptureTarget {
    /// The hotkey that skips the current character.
    ToggleSkip,
    /// The hotkey that hides or shows the thumbnails.
    TogglePreviews,
    /// The hotkey that switches to this profile.
    Profile,
    /// A character's own hotkey.
    Character(String),
    /// The hotkey of a custom source rule (by alias).
    CustomRule(String),
}

/// State of the hotkey settings panel: the input devices offered and the
/// key capture dialog.
#[derive(Debug)]
pub struct HotkeySettingsState {
    /// Input devices as (device id, readable name).
    pub available_devices: Vec<(String, String)>,
    pub device_load_error: Option<String>,
    pub show_key_capture_dialog: bool,
    pub capture_target: Option<CaptureTarget>,
    pub current_capture_state: Option<CaptureState>,
    pub capture_result: Option<CaptureResult>,
    pub capture_error: Option<String>,
    /// A started capture is still listening and has to be told to stop
    /// when it is cancelled or replaced.
    pub capture_running: bool,
}

/// The message shown when a capture could not start.
pub open spec fn capture_start_error(e: Seq<char>) -> Seq<char> {
    "Failed to start key capture: "@ + e
}

/// The panel after a capture for `target` was started with outcome
/// `started`: the devices are kept and no earlier result remains; on
/// success the dialog is open for `target` with a fresh capture state (no
/// key, no modifier, its prompt), no error, and the new capture running;
/// on failure the dialog is closed, without target, capture state or
/// running capture, and the error says why.
pub open spec fn capture_start_outcome(
    s0: HotkeySettingsState,
    s1: HotkeySettingsState,
    target: CaptureTarget,
    started: Result<(), String>,
) -> bool {
    &&& s1.available_devices == s0.available_devices
    &&& s1.device_load_error == s0.device_load_error
    &&& s1.capture_result is None
    &&& s1.capture_running == started is Ok
    &&& match started {
        Ok(()) => {
            &&& s1.show_key_capture_dialog
            &&& s1.capture_target == Some(target)
            &&& s1.current_capture_state matches Some(c) && c.key_code is None
                && !c.ctrl && !c.shift && !c.alt && !c.super_key && described(c)
            &&& s1.capture_error is None
        },
        Err(e) => {
            &&& !s1.show_key_capture_dialog
            &&& s1.capture_target is None
            &&& s1.current_capture_state is None
            &&& s1.capture_error matches Some(m) && m@ == capture_start_error(e@)
        },
    }
}

impl HotkeySettingsState {
    /// The panel with the devices found (or the error listing them gave),
    /// no dialog open.
    pub fn new(devices: Result<Vec<(String, String)>, String>) -> (s: HotkeySettingsState)
        ensures
            match devices {
                Ok(d) => s.available_devices@ == d@ && s.device_load_error is None,
                Err(e) => s.available_devices@.len() == 0 && s.device_load_error == Some(e),
            },
            !s.show_key_capture_dialog,
            s.capture_target is None,
            s.current_capture_state is None,
            s.capture_result is None,
            s.capture_error is None,
            !s.capture_running,
    {
        let (available_devices, device_load_error) = match devices {
            Ok(d) => (d, None),
            Err(e) => (Vec::new(), Some(e)),
        };
        HotkeySettingsState {
            available_devices,
            device_load_error,
            show_key_capture_dialog: false,
            capture_target: None,
            current_capture_state: None,
            capture_result: None,
            capture_error: None,
            capture_running: false,
        }
    }

    /// Close the capture dialog and forget the capture. Returns whether a
    /// running capture has to be told to stop (the caller sends on its
    /// cancel channel).
    pub fn cancel_capture(&mut self) -> (stop: bool)
        ensures
            stop == old(self).capture_running,
            !final(self).capture_running,
            !final(self).show_key_capture_dialog,
            final(self).capture_target is None,
            final(self).current_capture_state is None,
            final(self).capture_result is None,
            final(self).capture_error == old(self).capture_error,
            final(self).available_devices == old(self).available_devices,
            final(self).device_load_error == old(self).device_load_error,
    {
        self.show_key_capture_dialog = false;
        self.capture_target = None;
        self.current_capture_state = None;
        self.capture_result = None;
        let stop = self.capture_running;
        self.capture_running = false;
        stop
    }

    /// Open the capture dialog for `target` once the capture has started
    /// (`started` is `Ok`), with a fresh capture state; otherwise record
    /// why it could not start. Any earlier capture is cancelled first:
    /// returns whether a running one has to be told to stop.
    pub fn start_key_capture(&mut self, target: CaptureTarget, started: Result<(), String>) -> (stop_previous: bool)
        ensures
            stop_previous == old(self).capture_running,
            capture_start_outcome(*old(self), *final(self), target, started),
    {
        let stop_previous = self.cancel_capture();
        match started {
            Ok(()) => {
                self.show_key_capture_dialog = true;
                self.capture_target = Some(target);
                self.current_capture_state = Some(CaptureState::new());
                self.capture_result = None;
                self.capture_error = None;
                self.capture_running = true;
            },
            Err(e) => {
                let mut m = owned("Failed to start key capture: ");
                m.append(e.as_str());
                self.capture_error = Some(m);
            },
        }
        stop_previous
    }

    /// Start capturing the hotkey of a character.
    /// Returns whether an earlier running capture has to be told to stop.
    pub fn start_key_capture_for_character(&mut self, character_name: String, started: Result<(), String>) -> (stop_previous: bool)
        ensures
            stop_previous == old(self).capture_running,
            capture_start_outcome(*old(self), *final(self), CaptureTarget::Character(character_name), started),
    {
        self.start_key_capture(CaptureTarget::Character(character_name), started)
    }

    /// Start capturing the hotkey of a custom source rule.
    /// Returns whether an earlier running capture has to be told to stop.
    pub fn start_key_capture_for_custom_rule(&mut self, rule_alias: String, started: Result<(), String>) -> (stop_previous: bool)
        ensures
            stop_previous == old(self).capture_running,
            capture_start_outcome(*old(self), *final(self), CaptureTarget::CustomRule(rule_alias), started),
    {
        self.start_key_capture(CaptureTarget::CustomRule(rule_alias), started)
    }

    /// Whether the open dialog captures the hotkey of `character_name`.
    pub fn is_capturing_for(&self, character_name: &str) -> (b: bool)
        ensures
            b == (self.show_key_capture_dialog && (self.capture_target matches Some(CaptureTarget::Character(n))
                && n@ == character_name@)),
    {
        match &self.capture_target {
            Some(CaptureTarget::Character(target)) => str_eq(target.as_str(), character_name) && self.show_key_capture_dialog,
            _ => false,
        }
    }

    /// Whether the open dialog captures the hotkey of rule `alias`.
    pub fn is_capturing_custom_rule(&self, alias: &str) -> (b: bool)
        ensures
            b == (self.show_key_capture_dialog && (self.capture_target matches Some(CaptureTarget::CustomRule(n))
                && n@ == alias@)),
    {
        match &self.capture_target {
            Some(CaptureTarget::CustomRule(target)) => str_eq(target.as_str(), alias) && self.show_key_capture_dialog,
            _ => false,
        }
    }

    /// Whether the key capture dialog is open.
    pub fn is_dialog_open(&self) -> (b: bool)
        ensures
            b == self.show_key_capture_dialog,
    {
        self.show_key_capture_dialog
    }
}

/// The name the capture dialog gives its target.
pub open spec fn target_label(t: Option<CaptureTarget>) -> Seq<char> {
    match t {
        Some(CaptureTarget::ToggleSkip) => "Toggle Skip"@,
        Some(CaptureTarget::TogglePreviews) => "Toggle Previews"@,
        Some(CaptureTarget::Profile) => "Switch to Profile"@,
        Some(CaptureTarget::Character(name)) => "Character: "@ + name@,
        Some(CaptureTarget::CustomRule(alias)) => "Custom Source: "@ + alias@,
        None => "Unknown"@,
    }
}

/// A device id made readable: the "-event-kbd" / "-event-mouse" endings
/// named, then underscores and dashes turned into spaces.
pub open spec fn readable_device_id(id: Seq<char>) -> Seq<char> {
    replace_all(
        replace_all(
            replace_all(replace_all(id, "-event-kbd"@, " (Keyboard)"@), "-event-mouse"@, " (Mouse)"@),
            "_"@,
            " "@,
        ),
        "-"@,
        " "@,
    )
}

/// The device id as the capture dialog lists it.
pub fn capture_device_label(device_id: &str) -> (s: String)
    ensures
        s@ == readable_device_id(device_id@),
{
    proof {
        reveal_strlit("-event-kbd");
        reveal_strlit("-event-mouse");
        reveal_strlit("_");
        reveal_strlit("-");
    }
    let a = replace_str(device_id, "-event-kbd", " (Keyboard)");
    let b = replace_str(a.as_str(), "-event-mouse", " (Mouse)");
    let c = replace_str(b.as_str(), "_", " ");
    replace_str(c.as_str(), "-", " ")
}

/// The cycle-group hotkey a capture target name designates:
/// "GROUP:<index>:FWD" (forward) or "GROUP:<index>:BWD" (backward), the
/// index read as `str::parse::<usize>` reads it.
pub open spec fn group_hotkey_slot(name: Seq<char>) -> Option<(nat, bool)> {
    let parts = split_on(name, ':');
    if has_prefix(name, "GROUP:"@) && parts.len() == 3 {
        match parse_usize(parts[1]) {
            Some(i) => if parts[2] == "FWD"@ {
                Some((i, true))
            } else if parts[2] == "BWD"@ {
                Some((i, false))
            } else {
                None
            },
            None => None,
        }
    } else {
        None
    }
}

/// Whether rule `i` is the first one with alias `a`.
pub open spec fn is_first_alias(rules: Seq<CustomWindowRuleModel>, a: Seq<char>, i: int) -> bool {
    &&& 0 <= i < rules.len()
    &&& rules[i].alias@ == a
    &&& forall|j: int| 0 <= j < i ==> #[trigger] rules[j].alias@ != a
}

/// Index of the first rule with alias `a`, if any.
pub open spec fn first_rule_index(rules: Seq<CustomWindowRuleModel>, a: Seq<char>) -> Option<int> {
    if exists|i: int| is_first_alias(rules, a, i) {
        Some(choose|i: int| is_first_alias(rules, a, i))
    } else {
        None
    }
}

/// The profile after the captured binding `b` is accepted for `target`,
/// or `None` when the target names nothing in the profile: a
/// "GROUP:<index>:FWD|BWD" name with no such group, or a custom rule alias
/// that no rule has. Other character names get a character hotkey.
pub open spec fn profile_with_binding(p: ProfileModel, target: CaptureTarget, b: HotkeyModel) -> Option<ProfileModel> {
    match target {
        CaptureTarget::ToggleSkip => Some(ProfileModel { hotkey_toggle_skip: Some(b), ..p }),
        CaptureTarget::TogglePreviews => Some(ProfileModel { hotkey_toggle_previews: Some(b), ..p }),
        CaptureTarget::Profile => Some(ProfileModel { hotkey_profile_switch: Some(b), ..p }),
        CaptureTarget::Character(name) => if has_prefix(name@, "GROUP:"@) {
            profile_with_group_binding(p, name@, b)
        } else {
            Some(ProfileModel { character_hotkeys: p.character_hotkeys.insert(name@, b), ..p })
        },
        CaptureTarget::CustomRule(alias) => profile_with_rule_binding(p, alias@, b),
    }
}

/// The profile after `b` is stored as a cycle group hotkey under the
/// target name `name` ("GROUP:<index>:FWD|BWD"), if it names a group.
pub open spec fn profile_with_group_binding(p: ProfileModel, name: Seq<char>, b: HotkeyModel) -> Option<ProfileModel> {
    match group_hotkey_slot(name) {
        Some((i, forward)) => if i < p.cycle_groups.len() {
            let g = p.cycle_groups[i as int];
            let g2 = if forward {
                CycleGroupModel { hotkey_forward: Some(b), ..g }
            } else {
                CycleGroupModel { hotkey_backward: Some(b), ..g }
            };
            Some(ProfileModel { cycle_groups: p.cycle_groups.update(i as int, g2), ..p })
        } else {
            None
        },
        None => None,
    }
}

/// The profile after `b` is stored as the hotkey of the first custom rule
/// with alias `alias`, if there is one.
pub open spec fn profile_with_rule_binding(p: ProfileModel, alias: Seq<char>, b: HotkeyModel) -> Option<ProfileModel> {
    match first_rule_index(p.custom_windows, alias) {
        Some(i) => Some(
            ProfileModel {
                custom_windows: p.custom_windows.update(i, CustomWindowRuleModel { hotkey: Some(b), ..p.custom_windows[i] }),
                ..p
            },
        ),
        None => None,
    }
}

fn apply_group_binding(profile: &mut Profile, name: &str, binding: HotkeyBinding) -> (changed: bool)
    ensures
        match profile_with_group_binding(old(profile)@, name@, binding@) {
            Some(q) => changed && final(profile)@ == q,
            None => !changed && final(profile)@ == old(profile)@,
        },
{
    let ghost p0 = profile@;
    if !starts_with(name, "GROUP:") {
        return false;
    }
    let parts = split_at_char(name, ':');
    if parts.len() != 3 {
        return false;
    }
    let ghost sp = split_on(name@, ':');
    assert(parts@[1]@ == sp[1] && parts@[2]@ == sp[2]);
    match parse_usize_str(parts[1].as_str()) {
        Some(idx) => {
            if idx >= profile.cycle_groups.len() {
                return false;
            }
            let forward = str_eq(parts[2].as_str(), "FWD");
            let backward = str_eq(parts[2].as_str(), "BWD");
            if !forward && !backward {
                return false;
            }
            let mut g = profile.cycle_groups[idx].duplicate();
            if forward {
                g.hotkey_forward = Some(binding);
            } else {
                g.hotkey_backward = Some(binding);
            }
            let ghost g2 = g@;
            profile.cycle_groups.set(idx, g);
            assert(crate::profile::group_views(profile.cycle_groups@) =~= p0.cycle_groups.update(idx as int, g2));
            assert(profile@ =~= ProfileModel { cycle_groups: p0.cycle_groups.update(idx as int, g2), ..p0 });
            true
        },
        None => false,
    }
}

fn apply_rule_binding(profile: &mut Profile, alias: &str, binding: HotkeyBinding) -> (changed: bool)
    ensures
        match profile_with_rule_binding(old(profile)@, alias@, binding@) {
            Some(q) => changed && final(profile)@ == q,
            None => !changed && final(profile)@ == old(profile)@,
        },
{
    let ghost p0 = profile@;
    let ghost rules = p0.custom_windows;
    let n = profile.custom_windows.len();
    let mut i: usize = 0;
    while i < n
        invariant
            i <= n,
            n == profile.custom_windows@.len(),
            profile@ == p0,
            p0 == old(profile)@,
            rules == p0.custom_windows,
            rules == rule_views(profile.custom_windows@),
            forall|j: int| 0 <= j < i ==> #[trigger] rules[j].alias@ != alias@,
        decreases n - i,
    {
        if str_eq(profile.custom_windows[i].alias.as_str(), alias) {
            proof {
                assert(rules[i as int].alias@ == alias@);
                assert(is_first_alias(rules, alias@, i as int));
                let k = choose|k: int| is_first_alias(rules, alias@, k);
                assert(is_first_alias(rules, alias@, k));
                assert(k == i) by {
                    if k < i {
                        assert(rules[k].alias@ != alias@);
                    } else if k > i {
                        assert(rules[i as int].alias@ != alias@);
                    }
                };
                assert(first_rule_index(rules, alias@) == Some(i as int));
            }
            let mut r = profile.custom_windows[i].duplicate();
            r.hotkey = Some(binding);
            let ghost r2 = r@;
            assert(r2 == CustomWindowRuleModel { hotkey: Some(binding@), ..rules[i as int] });
            profile.custom_windows.set(i, r);
            assert(rule_views(profile.custom_windows@) =~= rules.update(i as int, r2));
            assert(profile@ =~= ProfileModel { custom_windows: rules.update(i as int, r2), ..p0 });
            return true;
        }
        i = i + 1;
    }
    assert forall|k: int| !is_first_alias(rules, alias@, k) by {
        if 0 <= k < rules.len() {
            assert(rules[k].alias@ != alias@);
        }
    };
    false
}

/// Which profile-wide hotkey a capture target sets.
fn set_profile_hotkey(profile: &mut Profile, target: &CaptureTarget, binding: HotkeyBinding)
    requires
        target is ToggleSkip || target is TogglePreviews || target is Profile,
    ensures
        profile_with_binding(old(profile)@, *target, binding@) == Some(final(profile)@),
{
    let ghost p0 = profile@;
    match target {
        CaptureTarget::ToggleSkip => {
            profile.hotkey_toggle_skip = Some(binding);
            assert(profile@ =~= ProfileModel { hotkey_toggle_skip: Some(binding@), ..p0 });
        },
        CaptureTarget::TogglePreviews => {
            profile.hotkey_toggle_previews = Some(binding);
            assert(profile@ =~= ProfileModel { hotkey_toggle_previews: Some(binding@), ..p0 });
        },
        _ => {
            profile.hotkey_profile_switch = Some(binding);
            assert(profile@ =~= ProfileModel { hotkey_profile_switch: Some(binding@), ..p0 });
        },
    }
}

fn set_character_hotkey(profile: &mut Profile, name: &String, binding: HotkeyBinding)
    ensures
        final(profile)@ == (ProfileModel {
            character_hotkeys: old(profile)@.character_hotkeys.insert(name@, binding@),
            ..old(profile)@
        }),
{
    let ghost p0 = profile@;
    profile.character_hotkeys.insert(name.clone(), binding);
    assert(profile@ =~= ProfileModel { character_hotkeys: p0.character_hotkeys.insert(name@, binding@), ..p0 });
}

/// Store a captured binding where `target` says. Returns whether the
/// profile changed.
pub fn apply_captured_binding(profile: &mut Profile, target: &CaptureTarget, binding: HotkeyBinding) -> (changed: bool)
    ensures
        match profile_with_binding(old(profile)@, *target, binding@) {
            Some(q) => changed && final(profile)@ == q,
            None => !changed && final(profile)@ == old(profile)@,
        },
{
    match target {
        CaptureTarget::Character(name) => {
            if starts_with(name.as_str(), "GROUP:") {
                apply_group_binding(profile, name.as_str(), binding)
            } else {
                set_character_hotkey(profile, name, binding);
                true
            }
        },
        CaptureTarget::CustomRule(alias) => apply_rule_binding(profile, alias.as_str(), binding),
        _ => {
            set_profile_hotkey(profile, target, binding);
            true
        },
    }
}

impl HotkeySettingsState {
    /// The name of what the open dialog binds.
    pub fn target_name(&self) -> (s: String)
        ensures
            s@ == target_label(self.capture_target),
    {
        match &self.capture_target {
            Some(CaptureTarget::ToggleSkip) => owned("Toggle Skip"),
            Some(CaptureTarget::TogglePreviews) => owned("Toggle Previews"),
            Some(CaptureTarget::Profile) => owned("Switch to Profile"),
            Some(CaptureTarget::Character(name)) => {
                let mut s = owned("Character: ");
                s.append(name.as_str());
                s
            },
            Some(CaptureTarget::CustomRule(alias)) => {
                let mut s = owned("Custom Source: ");
                s.append(alias.as_str());
                s
            },
            None => owned("Unknown"),
        }
    }

    /// The capture finished: Escape (`Cancelled`) closes the dialog, any
    /// other result is kept for the user to accept or dismiss. Returns
    /// whether the capture has to be told to stop (on Escape, when it is
    /// still marked running).
    pub fn receive_capture_result(&mut self, result: CaptureResult) -> (stop: bool)
        ensures
            result is Cancelled ==> !final(self).show_key_capture_dialog && final(self).capture_target is None
                && final(self).capture_result is None && final(self).current_capture_state is None
                && !final(self).capture_running && stop == old(self).capture_running,
            !(result is Cancelled) ==> !stop && final(self).capture_running == old(self).capture_running,
            !(result is Cancelled) ==> final(self).capture_result == Some(result)
                && final(self).show_key_capture_dialog == old(self).show_key_capture_dialog
                && final(self).capture_target == old(self).capture_target
                && final(self).current_capture_state == old(self).current_capture_state,
            final(self).available_devices == old(self).available_devices,
            final(self).device_load_error == old(self).device_load_error,
            final(self).capture_error == old(self).capture_error,
    {
        match result {
            CaptureResult::Cancelled => self.cancel_capture(),
            other => {
                self.capture_result = Some(other);
                false
            },
        }
    }

    /// The user accepted the captured binding: it is stored where the
    /// target says and the dialog closes, the capture being cancelled as
    /// `cancel_capture` does (a capture still marked running before the
    /// call has to be told to stop). Returns whether the profile changed.
    /// Without a captured binding nothing happens.
    pub fn accept_capture(&mut self, profile: &mut Profile) -> (changed: bool)
        ensures
            match (old(self).capture_result, old(self).capture_target) {
                (Some(CaptureResult::Captured(b)), Some(t)) => match profile_with_binding(old(profile)@, t, b@) {
                    Some(q) => changed && final(profile)@ == q,
                    None => !changed && final(profile)@ == old(profile)@,
                },
                _ => !changed && final(profile)@ == old(profile)@,
            },
            old(self).capture_result matches Some(CaptureResult::Captured(_)) ==> !final(self).show_key_capture_dialog
                && final(self).capture_target is None && final(self).capture_result is None
                && !final(self).capture_running,
            !(old(self).capture_result matches Some(CaptureResult::Captured(_))) ==> *final(self) == *old(self),
    {
        match &self.capture_result {
            Some(CaptureResult::Captured(b)) => {
                let binding = b.duplicate();
                let changed = match &self.capture_target {
                    Some(t) => apply_captured_binding(profile, t, binding),
                    None => false,
                };
                let _ = self.cancel_capture();
                changed
            },
            _ => false,
        }
    }
}

/// The name the hotkey panel gives a backend.
pub open spec fn backend_text(b: crate::profile::HotkeyBackendType) -> Seq<char> {
    match b {
        crate::profile::HotkeyBackendType::X11 => "X11 (Recommended)"@,
        crate::profile::HotkeyBackendType::Evdev => "evdev (Advanced - Requires Permissions)"@,
    }
}

/// The backend as the hotkey panel names it.
pub fn backend_label(b: crate::profile::HotkeyBackendType) -> (s: String)
    ensures
        s@ == backend_text(b),
{
    match b {
        crate::profile::HotkeyBackendType::X11 => owned("X11 (Recommended)"),
        crate::profile::HotkeyBackendType::Evdev => owned("evdev (Advanced - Requires Permissions)"),
    }
}

/// The name of the first listed device with id `id`, if any.
pub open spec fn listed_device_name(devices: Seq<(String, String)>, id: Seq<char>) -> Option<Seq<char>> {
    if exists|i: int| 0 <= i < devices.len() && #[trigger] devices[i].0@ == id {
        let i = choose|i: int| 0 <= i < devices.len() && #[trigger] devices[i].0@ == id
            && forall|j: int| 0 <= j < i ==> #[trigger] devices[j].0@ != id;
        Some(devices[i].1@)
    } else {
        None
    }
}

/// What the device selector shows for the profile's input device.
pub open spec fn device_text(device: Option<Seq<char>>, devices: Seq<(String, String)>) -> Seq<char> {
    match device {
        None => "---"@,
        Some(d) => if d == "auto"@ {
            "Auto-Detect (Recommended)"@
        } else if d == "all"@ {
            "All Devices"@
        } else {
            match listed_device_name(devices, d) {
                Some(n) => n,
                None => "Auto-Detect (Recommended)"@,
            }
        },
    }
}

/// The hotkey settings can be edited: always with X11, and with evdev
/// once an input device is chosen.
pub open spec fn hotkeys_editable(p: ProfileModel) -> bool {
    p.hotkey_backend == crate::profile::HotkeyBackendType::X11 || p.hotkey_input_device is Some
}

/// Whether the hotkey settings can be edited for this profile.
pub fn hotkey_controls_enabled(profile: &Profile) -> (b: bool)
    ensures
        b == hotkeys_editable(profile@),
{
    match profile.hotkey_backend {
        crate::profile::HotkeyBackendType::X11 => true,
        crate::profile::HotkeyBackendType::Evdev => profile.hotkey_input_device.is_some(),
    }
}

/// The text shown for an optional binding: its display name, or "Not set".
pub fn binding_text(b: &Option<HotkeyBinding>) -> (s: String)
    ensures
        b is None ==> s@ == "Not set"@,
        b matches Some(k) ==> s@ == crate::hotkey::modifier_prefix(k.ctrl, k.shift, k.alt, k.super_key)
            + crate::hotkey::spec_key_code_to_name(k.key_code),
{
    match b {
        Some(k) => k.display_name(),
        None => owned("Not set"),
    }
}

impl HotkeySettingsState {
    /// What the device selector shows for `device` (the profile's input
    /// device setting).
    pub fn device_label(&self, device: &Option<String>) -> (s: String)
        ensures
            s@ == device_text(crate::text::opt_view(*device), self.available_devices@),
    {
        match device {
            None => owned("---"),
            Some(d) => {
                if str_eq(d.as_str(), "auto") {
                    owned("Auto-Detect (Recommended)")
                } else if str_eq(d.as_str(), "all") {
                    owned("All Devices")
                } else {
                    let devices = &self.available_devices;
                    let mut i: usize = 0;
                    while i < devices.len()
                        invariant
                            i <= devices@.len(),
                            forall|j: int| 0 <= j < i ==> #[trigger] devices@[j].0@ != d@,
                            d@ != "auto"@ && d@ != "all"@,
                            crate::text::opt_view(*device) == Some(d@),
                            devices@ == self.available_devices@,
                        decreases devices@.len() - i,
                    {
                        if str_eq(devices[i].0.as_str(), d.as_str()) {
                            proof {
                                assert(devices@[i as int].0@ == d@ && forall|j: int| 0 <= j < i ==> #[trigger] devices@[j].0@ != d@);
                                let k = choose|k: int| 0 <= k < devices@.len() && #[trigger] devices@[k].0@ == d@
                                    && forall|j: int| 0 <= j < k ==> #[trigger] devices@[j].0@ != d@;
                                assert(k == i) by {
                                    if k < i {
                                        assert(devices@[k].0@ != d@);
                                    } else if k > i {
                                        assert(devices@[i as int].0@ != d@);
                                    }
                                };
                            }
                            assert(listed_device_name(devices@, d@) == Some(devices@[i as int].1@));
                            assert(d@ != "auto"@ && d@ != "all"@);
                            assert(crate::text::opt_view(*device) == Some(d@));
                            let r = devices[i].1.clone();
                            assert(r@ == devices@[i as int].1@);
                            return r;
                        }
                        i = i + 1;
                    }
                    owned("Auto-Detect (Recommended)")
                }
            },
        }
    }
}

/// State of the appearance panel: the fonts offered and the thumbnail
/// resize tool.
#[derive(Debug)]
pub struct VisualSettingsState {
    pub available_fonts: Vec<String>,
    pub font_load_error: Option<String>,
    pub show_resize_confirmation: bool,
    pub pending_resize_all: Option<crate::domain::Dimensions>,
    pub current_width: u16,
    pub current_height: u16,
    pub last_target: String,
}

impl VisualSettingsState {
    /// The panel with the fonts found; when listing failed, only
    /// "Monospace" is offered and the error kept. The resize tool starts at
    /// 250 x 141 with no target.
    pub fn new(fonts: Result<Vec<String>, String>) -> (s: VisualSettingsState)
        ensures
            match fonts {
                Ok(f) => s.available_fonts@ == f@ && s.font_load_error is None,
                Err(e) => s.available_fonts@.len() == 1 && s.available_fonts@[0]@ == "Monospace"@
                    && s.font_load_error == Some(e),
            },
            !s.show_resize_confirmation,
            s.pending_resize_all is None,
            s.current_width == 250,
            s.current_height == 141,
            s.last_target@ == "---"@,
    {
        let (available_fonts, font_load_error) = match fonts {
            Ok(f) => (f, None),
            Err(e) => (vec![owned("Monospace")], Some(e)),
        };
        VisualSettingsState {
            available_fonts,
            font_load_error,
            show_resize_confirmation: false,
            pending_resize_all: None,
            current_width: 250,
            current_height: 141,
            last_target: owned("---"),
        }
    }
}

/// State of the behavior panel (it keeps none).
#[derive(Debug)]
pub struct BehaviorSettingsState {}

impl BehaviorSettingsState {
    pub fn new() -> (s: BehaviorSettingsState)
        ensures
            s == (BehaviorSettingsState {}),
    {
        BehaviorSettingsState {}
    }
}

/// Overrides kept aside while they are switched off in the editor.
#[derive(Debug, Clone)]
pub struct CachedOverrides {
    pub active_border_color: Option<String>,
    pub inactive_border_color: Option<String>,
    pub active_border_size: Option<u16>,
    pub inactive_border_size: Option<u16>,
    pub text_color: Option<String>,
}

impl View for CachedOverrides {
    type V = CachedOverrides;

    open spec fn view(&self) -> CachedOverrides {
        *self
    }
}

impl Duplicate for CachedOverrides {
    fn duplicate(&self) -> (r: CachedOverrides) {
        CachedOverrides {
            active_border_color: crate::text::copy_opt_string(&self.active_border_color),
            inactive_border_color: crate::text::copy_opt_string(&self.inactive_border_color),
            active_border_size: self.active_border_size,
            inactive_border_size: self.inactive_border_size,
            text_color: crate::text::copy_opt_string(&self.text_color),
        }
    }
}

impl CachedOverrides {
    /// No override kept.
    pub fn new() -> (c: CachedOverrides)
        ensures
            c.active_border_color is None,
            c.inactive_border_color is None,
            c.active_border_size is None,
            c.inactive_border_size is None,
            c.text_color is None,
    {
        CachedOverrides {
            active_border_color: None,
            inactive_border_color: None,
            active_border_size: None,
            inactive_border_size: None,
            text_color: None,
        }
    }
}

/// State of the characters panel.
#[derive(Debug)]
pub struct CharactersState {
    pub show_add_characters_popup: bool,
    pub character_selections: NameMap<bool>,
    pub expanded_rows: NameMap<bool>,
    pub cached_overrides: NameMap<CachedOverrides>,
    pub selected_cycle_group_index: usize,
    pub renaming_group_idx: Option<usize>,
    pub rename_buffer: String,
}

impl CharactersState {
    /// Nothing selected, expanded or cached; the first cycle group shown.
    pub fn new() -> (s: CharactersState)
        ensures
            !s.show_add_characters_popup,
            s.character_selections@ == Map::<Seq<char>, bool>::empty(),
            s.expanded_rows@ == Map::<Seq<char>, bool>::empty(),
            s.cached_overrides@ == Map::<Seq<char>, CachedOverrides>::empty(),
            s.selected_cycle_group_index == 0,
            s.renaming_group_idx is None,
            s.rename_buffer@ == Seq::<char>::empty(),
    {
        CharactersState {
            show_add_characters_popup: false,
            character_selections: NameMap::new(),
            expanded_rows: NameMap::new(),
            cached_overrides: NameMap::new(),
            selected_cycle_group_index: 0,
            renaming_group_idx: None,
            rename_buffer: String::new(),
        }
    }

    /// A profile was loaded: the overrides kept aside belong to the old one
    /// and are dropped; the rest of the panel stays.
    pub fn load_from_profile(&mut self, _profile: &crate::profile::Profile)
        ensures
            final(self).cached_overrides@ == Map::<Seq<char>, CachedOverrides>::empty(),
            final(self).show_add_characters_popup == old(self).show_add_characters_popup,
            final(self).character_selections == old(self).character_selections,
            final(self).expanded_rows == old(self).expanded_rows,
            final(self).selected_cycle_group_index == old(self).selected_cycle_group_index,
            final(self).renaming_group_idx == old(self).renaming_group_idx,
            final(self).rename_buffer == old(self).rename_buffer,
    {
        self.cached_overrides = NameMap::new();
    }
}

/// The theme values an override falls back to in the character editor.
#[derive(Debug, Clone)]
pub struct ThemeDefaults {
    pub active_border_color: String,
    pub active_border_size: u16,
    pub inactive_border_color: String,
    pub inactive_border_size: u16,
    pub text_color: String,
}

impl ThemeDefaults {
    /// The theme of a profile.
    pub fn of_profile(p: &crate::profile::Profile) -> (t: ThemeDefaults)
        ensures
            t.active_border_color@ == p.thumbnail_active_border_color@,
            t.active_border_size == p.thumbnail_active_border_size,
            t.inactive_border_color@ == p.thumbnail_inactive_border_color@,
            t.inactive_border_size == p.thumbnail_inactive_border_size,
            t.text_color@ == p.thumbnail_text_color@,
    {
        ThemeDefaults {
            active_border_color: p.thumbnail_active_border_color.clone(),
            active_border_size: p.thumbnail_active_border_size,
            inactive_border_color: p.thumbnail_inactive_border_color.clone(),
            inactive_border_size: p.thumbnail_inactive_border_size,
            text_color: p.thumbnail_text_color.clone(),
        }
    }
}

/// State of the profile selector and its dialogs.
#[derive(Debug)]
pub struct ProfileSelector {
    pub edit_profile_name: String,
    pub edit_profile_desc: String,
    pub show_new_dialog: bool,
    pub show_duplicate_dialog: bool,
    pub show_delete_confirm: bool,
    pub show_edit_dialog: bool,
    pub pending_profile_idx: Option<usize>,
    /// The profile a dialog acts on (not necessarily the active one).
    pub action_target_idx: Option<usize>,
}

impl ProfileSelector {
    /// No dialog open, empty fields.
    pub fn new() -> (s: ProfileSelector)
        ensures
            s.edit_profile_name@ == Seq::<char>::empty(),
            s.edit_profile_desc@ == Seq::<char>::empty(),
            !s.show_new_dialog && !s.show_duplicate_dialog && !s.show_delete_confirm && !s.show_edit_dialog,
            s.pending_profile_idx is None,
            s.action_target_idx is None,
    {
        ProfileSelector {
            edit_profile_name: String::new(),
            edit_profile_desc: String::new(),
            show_new_dialog: false,
            show_duplicate_dialog: false,
            show_delete_confirm: false,
            show_edit_dialog: false,
            pending_profile_idx: None,
            action_target_idx: None,
        }
    }
}

/// What the profile selector did.
#[derive(Debug, Clone, Copy, PartialEq, Structural)]
pub enum ProfileAction {
    /// Nothing happened.
    Nothing,
    SwitchProfile,
    ProfileCreated,
    ProfileDeleted,
    ProfileUpdated,
}

} // verus!
