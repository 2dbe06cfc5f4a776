//! Hotkey input decisions shared by the X11 and evdev backends: which
//! command a key press triggers, which modifiers are held, which devices
//! to listen on, and how bindings map to X11 key grabs. The backends read
//! the devices and the X server and hand the values over.

use vstd::prelude::*;
use crate::constants;
use crate::hotkey::{HotkeyBinding, HotkeyModel};
use crate::name_map::Duplicate;
use crate::text::{replace_all, replace_str, contains_seq, contains_str, lex_le, str_le, str_eq,
    lemma_lex_total, lemma_lex_transitive};

verus! {

/// What a hotkey backend can do.
#[derive(Debug, Clone)]
pub struct BackendCapabilities {
    /// Modifiers held on one device combine with keys of another.
    pub supports_cross_device_modifiers: bool,
    /// Listening can be limited to chosen devices.
    pub supports_device_filtering: bool,
    /// The backend needs extra system permissions.
    pub requires_permissions: bool,
    /// What the permissions are, in words.
    pub permission_description: Option<String>,
}

/// The hotkeys a backend listens for.
#[derive(Debug, Clone)]
pub struct HotkeyConfiguration {
    pub forward_key: Option<HotkeyBinding>,
    pub backward_key: Option<HotkeyBinding>,
    pub character_hotkeys: Vec<HotkeyBinding>,
    pub profile_hotkeys: Vec<HotkeyBinding>,
    pub toggle_skip_key: Option<HotkeyBinding>,
}

/// A command sent to the daemon when a hotkey is pressed.
#[derive(Debug, Clone, PartialEq)]
pub enum CycleCommand {
    Forward,
    Backward,
    CharacterHotkey(HotkeyBinding),
    ProfileHotkey(HotkeyBinding),
    ToggleSkip,
}

/// The X11 key-grab backend.
pub struct X11Backend;

/// The raw input-device backend.
pub struct EvdevBackend;

impl X11Backend {
    pub fn name() -> (n: &'static str)
        ensures
            n@ == "X11"@,
    {
        "X11"
    }

    /// X11 grabs need no permission, see no devices and combine no
    /// modifiers across devices.
    pub fn capabilities() -> (c: BackendCapabilities)
        ensures
            !c.supports_cross_device_modifiers,
            !c.supports_device_filtering,
            !c.requires_permissions,
            c.permission_description is None,
    {
        BackendCapabilities {
            supports_cross_device_modifiers: false,
            supports_device_filtering: false,
            requires_permissions: false,
            permission_description: None,
        }
    }
}

/// The permission text of the evdev backend.
pub open spec fn evdev_permission_text() -> Seq<char> {
    "Requires '"@ + constants::INPUT_GROUP@ + "' group membership. Run: "@ + constants::ADD_TO_INPUT_GROUP@
}

impl EvdevBackend {
    pub fn name() -> (n: &'static str)
        ensures
            n@ == "evdev"@,
    {
        "evdev"
    }

    /// Raw devices combine modifiers across devices and can be filtered,
    /// but need membership of the input group.
    pub fn capabilities() -> (c: BackendCapabilities)
        ensures
            c.supports_cross_device_modifiers,
            c.supports_device_filtering,
            c.requires_permissions,
            c.permission_description matches Some(d) && d@ == evdev_permission_text(),
    {
        let mut d = String::new();
        d.append("Requires '");
        d.append(constants::INPUT_GROUP);
        d.append("' group membership. Run: ");
        d.append(constants::ADD_TO_INPUT_GROUP);
        BackendCapabilities {
            supports_cross_device_modifiers: true,
            supports_device_filtering: true,
            requires_permissions: true,
            permission_description: Some(d),
        }
    }
}

/// Whether `b` binds `key` with exactly these modifiers.
pub open spec fn binds(b: HotkeyBinding, key: u16, ctrl: bool, shift: bool, alt: bool, super_key: bool) -> bool {
    b.key_code == key && b.ctrl == ctrl && b.shift == shift && b.alt == alt && b.super_key == super_key
}

/// The first binding of `v`, from `i` on, that binds the key.
pub open spec fn first_binding_from(
    v: Seq<HotkeyBinding>,
    i: int,
    key: u16,
    ctrl: bool,
    shift: bool,
    alt: bool,
    super_key: bool,
) -> Option<int>
    decreases v.len() - i,
{
    if i < 0 || i >= v.len() {
        None
    } else if binds(v[i], key, ctrl, shift, alt, super_key) {
        Some(i)
    } else {
        first_binding_from(v, i + 1, key, ctrl, shift, alt, super_key)
    }
}

/// Which hotkey a press selects.
pub ghost enum Resolution {
    Forward,
    Backward,
    ToggleSkip,
    Character(int),
    Profile(int),
}

/// The hotkey a press of `key` with these modifiers selects: forward,
/// then backward cycling, then toggling skip, then the first matching
/// character hotkey, then the first matching profile hotkey.
pub open spec fn resolve(c: HotkeyConfiguration, key: u16, ctrl: bool, shift: bool, alt: bool, super_key: bool) -> Option<Resolution> {
    if c.forward_key matches Some(b) && binds(b, key, ctrl, shift, alt, super_key) {
        Some(Resolution::Forward)
    } else if c.backward_key matches Some(b) && binds(b, key, ctrl, shift, alt, super_key) {
        Some(Resolution::Backward)
    } else if c.toggle_skip_key matches Some(b) && binds(b, key, ctrl, shift, alt, super_key) {
        Some(Resolution::ToggleSkip)
    } else if first_binding_from(c.character_hotkeys@, 0, key, ctrl, shift, alt, super_key) is Some {
        Some(Resolution::Character(first_binding_from(c.character_hotkeys@, 0, key, ctrl, shift, alt, super_key).unwrap()))
    } else if first_binding_from(c.profile_hotkeys@, 0, key, ctrl, shift, alt, super_key) is Some {
        Some(Resolution::Profile(first_binding_from(c.profile_hotkeys@, 0, key, ctrl, shift, alt, super_key).unwrap()))
    } else {
        None
    }
}

fn first_binding(v: &Vec<HotkeyBinding>, key: u16, ctrl: bool, shift: bool, alt: bool, super_key: bool) -> (r: Option<usize>)
    ensures
        r is None ==> first_binding_from(v@, 0, key, ctrl, shift, alt, super_key) is None,
        r matches Some(i) ==> first_binding_from(v@, 0, key, ctrl, shift, alt, super_key) == Some(i as int) && i < v@.len(),
{
    let mut i: usize = 0;
    while i < v.len()
        invariant
            i <= v@.len(),
            first_binding_from(v@, 0, key, ctrl, shift, alt, super_key) == first_binding_from(v@, i as int, key, ctrl, shift, alt, super_key),
        decreases v@.len() - i,
    {
        if v[i].matches(key, ctrl, shift, alt, super_key) {
            return Some(i);
        }
        i = i + 1;
    }
    None
}

fn opt_binds(b: &Option<HotkeyBinding>, key: u16, ctrl: bool, shift: bool, alt: bool, super_key: bool) -> (r: bool)
    ensures
        r == (*b matches Some(x) && binds(x, key, ctrl, shift, alt, super_key)),
{
    match b {
        Some(x) => x.matches(key, ctrl, shift, alt, super_key),
        None => false,
    }
}

/// The command a press of `key` with these modifiers triggers, as
/// `resolve` orders them.
pub fn resolve_hotkey(
    config: &HotkeyConfiguration,
    key_code: u16,
    ctrl: bool,
    shift: bool,
    alt: bool,
    super_key: bool,
) -> (r: Option<CycleCommand>)
    ensures
        match resolve(*config, key_code, ctrl, shift, alt, super_key) {
            None => r is None,
            Some(Resolution::Forward) => r == Some(CycleCommand::Forward),
            Some(Resolution::Backward) => r == Some(CycleCommand::Backward),
            Some(Resolution::ToggleSkip) => r == Some(CycleCommand::ToggleSkip),
            Some(Resolution::Character(i)) => r matches Some(CycleCommand::CharacterHotkey(b))
                && b@ == config.character_hotkeys@[i]@,
            Some(Resolution::Profile(i)) => r matches Some(CycleCommand::ProfileHotkey(b))
                && b@ == config.profile_hotkeys@[i]@,
        },
{
    if opt_binds(&config.forward_key, key_code, ctrl, shift, alt, super_key) {
        return Some(CycleCommand::Forward);
    }
    if opt_binds(&config.backward_key, key_code, ctrl, shift, alt, super_key) {
        return Some(CycleCommand::Backward);
    }
    if opt_binds(&config.toggle_skip_key, key_code, ctrl, shift, alt, super_key) {
        return Some(CycleCommand::ToggleSkip);
    }
    if let Some(i) = first_binding(&config.character_hotkeys, key_code, ctrl, shift, alt, super_key) {
        return Some(CycleCommand::CharacterHotkey(config.character_hotkeys[i].duplicate()));
    }
    if let Some(i) = first_binding(&config.profile_hotkeys, key_code, ctrl, shift, alt, super_key) {
        return Some(CycleCommand::ProfileHotkey(config.profile_hotkeys[i].duplicate()));
    }
    None
}

/// Whether some hotkey uses `key` as its main key.
pub open spec fn is_hotkey_key(c: HotkeyConfiguration, key: u16) -> bool {
    ||| (c.forward_key matches Some(b) && b.key_code == key)
    ||| (c.backward_key matches Some(b) && b.key_code == key)
    ||| (c.toggle_skip_key matches Some(b) && b.key_code == key)
    ||| (exists|i: int| 0 <= i < c.character_hotkeys@.len() && #[trigger] c.character_hotkeys@[i].key_code == key)
    ||| (exists|i: int| 0 <= i < c.profile_hotkeys@.len() && #[trigger] c.profile_hotkeys@[i].key_code == key)
}

fn any_key(v: &Vec<HotkeyBinding>, key: u16) -> (r: bool)
    ensures
        r == exists|i: int| 0 <= i < v@.len() && #[trigger] v@[i].key_code == key,
{
    let mut i: usize = 0;
    while i < v.len()
        invariant
            i <= v@.len(),
            forall|j: int| 0 <= j < i ==> #[trigger] v@[j].key_code != key,
        decreases v@.len() - i,
    {
        if v[i].key_code == key {
            return true;
        }
        i = i + 1;
    }
    false
}

/// Whether a press of `key` may be a hotkey (its modifiers are then read).
pub fn is_potential_hotkey(config: &HotkeyConfiguration, key_code: u16) -> (b: bool)
    ensures
        b == is_hotkey_key(*config, key_code),
{
    let f = match &config.forward_key { Some(b) => b.key_code == key_code, None => false };
    let k = match &config.backward_key { Some(b) => b.key_code == key_code, None => false };
    let s = match &config.toggle_skip_key { Some(b) => b.key_code == key_code, None => false };
    f || k || s || any_key(&config.character_hotkeys, key_code) || any_key(&config.profile_hotkeys, key_code)
}

/// Whether a device's held keys include one of the two key codes.
pub open spec fn device_holds(keys: Seq<u16>, a: u16, b: u16) -> bool {
    keys.contains(a) || keys.contains(b)
}

/// Whether some device holds one of the two key codes.
pub open spec fn any_device_holds(states: Seq<Vec<u16>>, a: u16, b: u16) -> bool {
    exists|d: int| 0 <= d < states.len() && #[trigger] device_holds(states[d]@, a, b)
}

fn holds_either(keys: &Vec<u16>, a: u16, b: u16) -> (r: bool)
    ensures
        r == device_holds(keys@, a, b),
{
    let mut i: usize = 0;
    while i < keys.len()
        invariant
            i <= keys@.len(),
            forall|j: int| 0 <= j < i ==> keys@[j] != a && keys@[j] != b,
        decreases keys@.len() - i,
    {
        if keys[i] == a || keys[i] == b {
            assert(keys@[i as int] == a || keys@[i as int] == b);
            return true;
        }
        i = i + 1;
    }
    false
}

proof fn lemma_holds_step(states: Seq<Vec<u16>>, d: int, a: u16, b: u16)
    requires
        0 <= d < states.len(),
    ensures
        any_device_holds(states.subrange(0, d + 1), a, b)
            == (any_device_holds(states.subrange(0, d), a, b) || device_holds(states[d]@, a, b)),
{
    let p = states.subrange(0, d);
    let q = states.subrange(0, d + 1);
    if any_device_holds(p, a, b) {
        let e = choose|e: int| 0 <= e < p.len() && #[trigger] device_holds(p[e]@, a, b);
        assert(q[e] == p[e]);
    }
    if device_holds(states[d]@, a, b) {
        assert(q[d] == states[d]);
    }
    if any_device_holds(q, a, b) {
        let e = choose|e: int| 0 <= e < q.len() && #[trigger] device_holds(q[e]@, a, b);
        if e < d {
            assert(p[e] == q[e]);
        }
    }
}

/// The modifiers held across devices, each device given by the key codes
/// it holds: (Ctrl, Shift, Alt, Super), each left or right.
pub fn held_modifiers_of(states: &Vec<Vec<u16>>) -> (r: (bool, bool, bool, bool))
    ensures
        r.0 == any_device_holds(states@, 29, 97),
        r.1 == any_device_holds(states@, constants::KEY_LEFTSHIFT, constants::KEY_RIGHTSHIFT),
        r.2 == any_device_holds(states@, 56, 100),
        r.3 == any_device_holds(states@, 125, 126),
{
    let mut ctrl = false;
    let mut shift = false;
    let mut alt = false;
    let mut sup = false;
    let mut d: usize = 0;
    while d < states.len()
        invariant
            d <= states@.len(),
            ctrl == any_device_holds(states@.subrange(0, d as int), 29, 97),
            shift == any_device_holds(states@.subrange(0, d as int), constants::KEY_LEFTSHIFT, constants::KEY_RIGHTSHIFT),
            alt == any_device_holds(states@.subrange(0, d as int), 56, 100),
            sup == any_device_holds(states@.subrange(0, d as int), 125, 126),
        decreases states@.len() - d,
    {
        let keys = &states[d];
        proof {
            lemma_holds_step(states@, d as int, 29, 97);
            lemma_holds_step(states@, d as int, constants::KEY_LEFTSHIFT, constants::KEY_RIGHTSHIFT);
            lemma_holds_step(states@, d as int, 56, 100);
            lemma_holds_step(states@, d as int, 125, 126);
        }
        ctrl = holds_either(keys, 29, 97) || ctrl;
        shift = holds_either(keys, constants::KEY_LEFTSHIFT, constants::KEY_RIGHTSHIFT) || shift;
        alt = holds_either(keys, 56, 100) || alt;
        sup = holds_either(keys, 125, 126) || sup;
        d = d + 1;
    }
    assert(states@.subrange(0, states@.len() as int) =~= states@);
    (ctrl, shift, alt, sup)
}

} // verus!

verus! {

/// X11 modifier bits: Shift, Lock (Caps Lock), Control, Mod1 (Alt), Mod2
/// (Num Lock) and Mod4 (Super).
pub const MOD_SHIFT: u16 = 1;
pub const MOD_LOCK: u16 = 2;
pub const MOD_CONTROL: u16 = 4;
pub const MOD_1: u16 = 8;
pub const MOD_2: u16 = 16;
pub const MOD_4: u16 = 64;

/// The X11 keycode of a kernel key code (8 more), when it fits the X11
/// range 8..=255.
pub fn evdev_keycode_to_x11(evdev_code: u16) -> (r: Option<u8>)
    ensures
        r is Some <==> evdev_code <= 247,
        r matches Some(k) ==> k == evdev_code + 8,
{
    if evdev_code <= 247 {
        Some((evdev_code + 8) as u8)
    } else {
        None
    }
}

/// The X11 modifier mask of a binding's modifiers.
pub open spec fn binding_modmask(ctrl: bool, shift: bool, alt: bool, super_key: bool) -> u16 {
    ((if ctrl { 4int } else { 0int }) + (if shift { 1int } else { 0int }) + (if alt { 8int } else { 0int })
        + (if super_key { 64int } else { 0int })) as u16
}

/// The X11 keycode and modifier mask to grab for a binding.
pub fn evdev_to_x11_key(binding: &HotkeyBinding) -> (r: Option<(u8, u16)>)
    ensures
        r is Some <==> binding.key_code <= 247,
        r matches Some((k, m)) ==> k == binding.key_code + 8
            && m == binding_modmask(binding.ctrl, binding.shift, binding.alt, binding.super_key),
{
    let keycode = match evdev_keycode_to_x11(binding.key_code) {
        Some(k) => k,
        None => return None,
    };
    let mut modmask: u16 = 0;
    if binding.ctrl {
        modmask = modmask + MOD_CONTROL;
    }
    if binding.shift {
        modmask = modmask + MOD_SHIFT;
    }
    if binding.alt {
        modmask = modmask + MOD_1;
    }
    if binding.super_key {
        modmask = modmask + MOD_4;
    }
    Some((keycode, modmask))
}

/// The modifiers of an X11 key event state that hotkeys use (Shift,
/// Control, Mod1, Mod4); lock keys and buttons are dropped.
pub fn normalize_modmask(state: u16) -> (m: u16)
    ensures
        m == state & 77,
{
    assert(1u16 | 4u16 | 8u16 | 64u16 == 77u16) by (bit_vector);
    state & (MOD_SHIFT | MOD_CONTROL | MOD_1 | MOD_4)
}

/// The modifier masks grabbed for a hotkey: as bound, and with Num Lock,
/// Caps Lock, or both, also held.
pub fn grab_modmasks(modmask: u16) -> (r: [u16; 4])
    ensures
        r@ == seq![modmask, modmask | 16, modmask | 2, modmask | 18],
{
    assert(16u16 | 2u16 == 18u16) by (bit_vector);
    let r = [modmask, modmask | MOD_2, modmask | MOD_LOCK, modmask | (MOD_2 | MOD_LOCK)];
    assert(r@ =~= seq![modmask, modmask | 16, modmask | 2, modmask | 18]);
    r
}

/// Whether a device supports the keys of a keyboard (Tab) or of a mouse
/// (left button): "keyboard+mouse", "keyboard", "mouse", or `None`.
pub fn classify_input_device(supported_keys: Option<&Vec<u16>>) -> (r: Option<&'static str>)
    ensures
        ({
            let kbd = supported_keys matches Some(k) && k@.contains(constants::KEY_TAB);
            let mouse = supported_keys matches Some(k) && k@.contains(constants::BTN_LEFT);
            &&& (kbd && mouse) ==> (r matches Some(s) && s@ == "keyboard+mouse"@)
            &&& (kbd && !mouse) ==> (r matches Some(s) && s@ == "keyboard"@)
            &&& (!kbd && mouse) ==> (r matches Some(s) && s@ == "mouse"@)
            &&& (!kbd && !mouse) ==> r is None
        }),
{
    match supported_keys {
        Some(keys) => {
            let kbd = contains_code(keys, constants::KEY_TAB);
            let mouse = contains_code(keys, constants::BTN_LEFT);
            if kbd && mouse {
                Some("keyboard+mouse")
            } else if kbd {
                Some("keyboard")
            } else if mouse {
                Some("mouse")
            } else {
                None
            }
        },
        None => None,
    }
}

fn contains_code(keys: &Vec<u16>, code: u16) -> (b: bool)
    ensures
        b == keys@.contains(code),
{
    let mut i: usize = 0;
    while i < keys.len()
        invariant
            i <= keys@.len(),
            forall|j: int| 0 <= j < i ==> keys@[j] != code,
        decreases keys@.len() - i,
    {
        if keys[i] == code {
            assert(keys@[i as int] == code);
            return true;
        }
        i = i + 1;
    }
    false
}

/// A readable name for a `/dev/input/by-id` entry: the "-event-kbd" and
/// "-event-mouse" suffixes removed, underscores and hyphens made spaces.
pub open spec fn friendly_name(name: Seq<char>) -> Seq<char> {
    replace_all(replace_all(replace_all(replace_all(name, "-event-kbd"@, Seq::empty()), "-event-mouse"@, Seq::empty()),
        "_"@, " "@), "-"@, " "@)
}

/// The readable name of a device entry.
pub fn friendly_device_name(name: &str) -> (r: String)
    ensures
        r@ == friendly_name(name@),
{
    proof {
        reveal_strlit("-event-kbd");
        reveal_strlit("-event-mouse");
        reveal_strlit("_");
        reveal_strlit("-");
    }
    let a = replace_str(name, "-event-kbd", "");
    let b = replace_str(a.as_str(), "-event-mouse", "");
    let c = replace_str(b.as_str(), "_", " ");
    let d = replace_str(c.as_str(), "-", " ");
    proof {
        reveal_strlit("");
        assert(""@ =~= Seq::<char>::empty());
    }
    d
}

/// Whether a `/dev/input/by-id` entry names an event device.
pub fn is_event_device_name(name: &str) -> (b: bool)
    ensures
        b == contains_seq(name@, "-event-"@),
{
    contains_str(name, "-event-")
}

} // verus!

verus! {

/// The devices a binding was captured from.
pub open spec fn devices_of(b: HotkeyBinding) -> Set<Seq<char>> {
    crate::hotkey::string_views(b.source_devices@).to_set()
}

pub open spec fn opt_devices(b: Option<HotkeyBinding>) -> Set<Seq<char>> {
    match b {
        Some(x) => devices_of(x),
        None => Set::empty(),
    }
}

pub open spec fn list_devices(v: Seq<HotkeyBinding>) -> Set<Seq<char>>
    decreases v.len(),
{
    if v.len() == 0 {
        Set::empty()
    } else {
        list_devices(v.drop_last()).union(devices_of(v.last()))
    }
}

/// Every device some binding of `c` was captured from.
pub open spec fn required_set(c: HotkeyConfiguration) -> Set<Seq<char>> {
    opt_devices(c.forward_key).union(opt_devices(c.backward_key)).union(list_devices(c.character_hotkeys@))
        .union(list_devices(c.profile_hotkeys@)).union(opt_devices(c.toggle_skip_key))
}

/// Add the devices of `b` that `r` lacks.
fn add_devices_of(r: &mut Vec<String>, b: &HotkeyBinding)
    requires
        crate::hotkey::string_views(old(r)@).no_duplicates(),
    ensures
        crate::hotkey::string_views(final(r)@).no_duplicates(),
        crate::hotkey::string_views(final(r)@).to_set() == crate::hotkey::string_views(old(r)@).to_set().union(devices_of(*b)),
{
    let ghost start = crate::hotkey::string_views(r@).to_set();
    let ghost devs = crate::hotkey::string_views(b.source_devices@);
    let mut i: usize = 0;
    while i < b.source_devices.len()
        invariant
            i <= devs.len(),
            devs == crate::hotkey::string_views(b.source_devices@),
            crate::hotkey::string_views(r@).no_duplicates(),
            crate::hotkey::string_views(r@).to_set() == start.union(devs.subrange(0, i as int).to_set()),
        decreases devs.len() - i,
    {
        let d = &b.source_devices[i];
        let mut found = false;
        let mut j: usize = 0;
        while j < r.len()
            invariant
                j <= r@.len(),
                found ==> crate::hotkey::string_views(r@).contains(d@),
                !found ==> forall|t: int| 0 <= t < j ==> r@[t]@ != d@,
            decreases r@.len() - j,
        {
            if str_eq(r[j].as_str(), d.as_str()) {
                assert(crate::hotkey::string_views(r@)[j as int] == d@);
                found = true;
            }
            j = j + 1;
        }
        let ghost before = crate::hotkey::string_views(r@);
        if !found {
            r.push(d.clone());
            assert(crate::hotkey::string_views(r@) =~= before.push(d@));
            assert(crate::hotkey::string_views(r@).no_duplicates()) by {
                assert(!before.contains(d@)) by {
                    if before.contains(d@) {
                        let t = choose|t: int| 0 <= t < before.len() && before[t] == d@;
                        assert(r@[t]@ == d@);
                    }
                };
            };
        }
        proof {
            assert(devs.subrange(0, i + 1) =~= devs.subrange(0, i as int).push(d@));
            assert(crate::hotkey::string_views(r@).to_set() =~= start.union(devs.subrange(0, i + 1).to_set())) by {
                devs.subrange(0, i as int).lemma_push_to_set_commute(d@);
                assert(devs.subrange(0, i + 1).to_set() =~= devs.subrange(0, i as int).to_set().insert(d@));
                if found {
                    assert(crate::hotkey::string_views(r@) == before);
                    assert(before.to_set().contains(d@));
                } else {
                    before.lemma_push_to_set_commute(d@);
                }
            };
        }
        i = i + 1;
    }
    assert(devs.subrange(0, devs.len() as int) =~= devs);
}

fn add_opt_devices(r: &mut Vec<String>, b: &Option<HotkeyBinding>)
    requires
        crate::hotkey::string_views(old(r)@).no_duplicates(),
    ensures
        crate::hotkey::string_views(final(r)@).no_duplicates(),
        crate::hotkey::string_views(final(r)@).to_set() == crate::hotkey::string_views(old(r)@).to_set().union(opt_devices(*b)),
{
    match b {
        Some(x) => add_devices_of(r, x),
        None => {
            assert(crate::hotkey::string_views(r@).to_set() =~= crate::hotkey::string_views(r@).to_set().union(Set::empty()));
        },
    }
}

fn add_list_devices(r: &mut Vec<String>, v: &Vec<HotkeyBinding>)
    requires
        crate::hotkey::string_views(old(r)@).no_duplicates(),
    ensures
        crate::hotkey::string_views(final(r)@).no_duplicates(),
        crate::hotkey::string_views(final(r)@).to_set() == crate::hotkey::string_views(old(r)@).to_set().union(list_devices(v@)),
{
    let ghost start = crate::hotkey::string_views(r@).to_set();
    let mut i: usize = 0;
    assert(start =~= start.union(list_devices(v@.subrange(0, 0))));
    while i < v.len()
        invariant
            i <= v@.len(),
            crate::hotkey::string_views(r@).no_duplicates(),
            crate::hotkey::string_views(r@).to_set() == start.union(list_devices(v@.subrange(0, i as int))),
        decreases v@.len() - i,
    {
        add_devices_of(r, &v[i]);
        proof {
            let next = v@.subrange(0, i + 1);
            assert(next.drop_last() =~= v@.subrange(0, i as int));
            assert(crate::hotkey::string_views(r@).to_set() =~= start.union(list_devices(next)));
        }
        i = i + 1;
    }
    assert(v@.subrange(0, v@.len() as int) =~= v@);
}

/// The devices named by the bindings (each once), for the "auto" device
/// mode.
pub fn required_devices(config: &HotkeyConfiguration) -> (r: Vec<String>)
    ensures
        crate::hotkey::string_views(r@).no_duplicates(),
        crate::hotkey::string_views(r@).to_set() == required_set(*config),
{
    let mut r: Vec<String> = Vec::new();
    assert(crate::hotkey::string_views(r@) =~= Seq::<Seq<char>>::empty());
    assert(crate::hotkey::string_views(r@).to_set() =~= Set::<Seq<char>>::empty());
    add_opt_devices(&mut r, &config.forward_key);
    add_opt_devices(&mut r, &config.backward_key);
    add_list_devices(&mut r, &config.character_hotkeys);
    add_list_devices(&mut r, &config.profile_hotkeys);
    add_opt_devices(&mut r, &config.toggle_skip_key);
    assert(crate::hotkey::string_views(r@).to_set() =~= required_set(*config));
    r
}

/// Whether the device with id `id` stays in "auto" mode.
pub open spec fn kept_device(required: Seq<Seq<char>>, id: Seq<char>) -> bool {
    required.contains(id)
}

/// Which of the devices (by id) to listen on in "auto" mode: those a
/// binding was captured from; all of them when no binding names a device
/// or none of those is present. Positions in increasing order.
pub fn auto_device_indices(required: &Vec<String>, device_ids: &Vec<String>) -> (r: Vec<usize>)
    ensures
        ({
            let req = crate::hotkey::string_views(required@);
            let ids = crate::hotkey::string_views(device_ids@);
            let all = req.len() == 0 || forall|i: int| 0 <= i < ids.len() ==> !kept_device(req, #[trigger] ids[i]);
            &&& forall|a: int, b: int| 0 <= a < b < r@.len() ==> r@[a] < r@[b]
            &&& forall|k: int| 0 <= k < r@.len() ==> r@[k] < ids.len()
            &&& forall|i: int| 0 <= i < ids.len() ==> (r@.contains(i as usize) <==> (all || kept_device(req, ids[i])))
        }),
{
    let ghost req = crate::hotkey::string_views(required@);
    let ghost ids = crate::hotkey::string_views(device_ids@);
    let mut kept: Vec<usize> = Vec::new();
    let mut i: usize = 0;
    while i < device_ids.len()
        invariant
            i <= ids.len(),
            req == crate::hotkey::string_views(required@),
            ids == crate::hotkey::string_views(device_ids@),
            forall|a: int, b: int| 0 <= a < b < kept@.len() ==> kept@[a] < kept@[b],
            forall|k: int| 0 <= k < kept@.len() ==> kept@[k] < i,
            forall|t: int| 0 <= t < i ==> (kept@.contains(t as usize) <==> kept_device(req, #[trigger] ids[t])),
        decreases ids.len() - i,
    {
        let mut found = false;
        let mut j: usize = 0;
        while j < required.len()
            invariant
                j <= req.len(),
                req == crate::hotkey::string_views(required@),
                ids == crate::hotkey::string_views(device_ids@),
                i < ids.len(),
                found == exists|t: int| 0 <= t < j && #[trigger] req[t] == ids[i as int],
            decreases req.len() - j,
        {
            if str_eq(required[j].as_str(), device_ids[i].as_str()) {
                assert(req[j as int] == ids[i as int]);
                found = true;
            }
            j = j + 1;
        }
        let ghost before = kept@;
        if found {
            kept.push(i);
        }
        proof {
            assert forall|t: int| 0 <= t <= i implies (kept@.contains(t as usize) <==> kept_device(req, #[trigger] ids[t])) by {
                if t < i {
                    if kept@.contains(t as usize) {
                        let w = choose|w: int| 0 <= w < kept@.len() && kept@[w] == t as usize;
                        if found && w == before.len() {
                            assert(kept@[w] == i);
                        } else {
                            assert(before[w] == t as usize);
                        }
                    }
                    if before.contains(t as usize) {
                        let w = choose|w: int| 0 <= w < before.len() && before[w] == t as usize;
                        assert(kept@[w] == t as usize);
                    }
                } else {
                    if found {
                        assert(kept@[before.len() as int] == i);
                    } else {
                        assert(!before.contains(i));
                    }
                }
            };
        }
        i = i + 1;
    }
    if required.len() == 0 || kept.len() == 0 {
        let mut all: Vec<usize> = Vec::new();
        let mut k: usize = 0;
        while k < device_ids.len()
            invariant
                k <= ids.len(),
                ids == crate::hotkey::string_views(device_ids@),
                all@ == Seq::new(k as nat, |t: int| t as usize),
            decreases ids.len() - k,
        {
            all.push(k);
            k = k + 1;
            assert(all@ =~= Seq::new(k as nat, |t: int| t as usize));
        }
        proof {
            assert forall|t: int| 0 <= t < ids.len() implies #[trigger] all@.contains(t as usize) by {
                assert(all@[t] == t as usize);
            };
            if required.len() != 0 {
                assert forall|t: int| 0 <= t < ids.len() implies !kept_device(req, #[trigger] ids[t]) by {
                    assert(!kept@.contains(t as usize));
                };
            }
        }
        all
    } else {
        proof {
            let w = kept@[0] as int;
            assert(kept@.contains(w as usize));
            assert(kept_device(req, ids[w]));
        }
        kept
    }
}

} // verus!

verus! {

/// Whether the X11 listener grabs binding `b` as `keycode` with modifier
/// mask `mask`.
pub open spec fn grabs_as(b: HotkeyBinding, keycode: u8, mask: u16) -> bool {
    &&& b.key_code <= 247
    &&& b.key_code + 8 == keycode
    &&& binding_modmask(b.ctrl, b.shift, b.alt, b.super_key) == mask
}

/// The last binding of `v` grabbed as `keycode` with `mask`.
pub open spec fn last_grab(v: Seq<HotkeyBinding>, keycode: u8, mask: u16) -> Option<int>
    decreases v.len(),
{
    if v.len() == 0 {
        None
    } else if grabs_as(v.last(), keycode, mask) {
        Some(v.len() - 1)
    } else {
        last_grab(v.drop_last(), keycode, mask)
    }
}

/// What the X11 listener does on a key press: the grabs are registered
/// forward, backward, then the character hotkeys, and a later grab of the
/// same key and mask replaces an earlier one.
pub open spec fn x11_resolve(c: HotkeyConfiguration, keycode: u8, mask: u16) -> Option<Resolution> {
    if last_grab(c.character_hotkeys@, keycode, mask) is Some {
        Some(Resolution::Character(last_grab(c.character_hotkeys@, keycode, mask).unwrap()))
    } else if c.backward_key matches Some(b) && grabs_as(b, keycode, mask) {
        Some(Resolution::Backward)
    } else if c.forward_key matches Some(b) && grabs_as(b, keycode, mask) {
        Some(Resolution::Forward)
    } else {
        None
    }
}

fn grabs(b: &HotkeyBinding, keycode: u8, mask: u16) -> (r: bool)
    ensures
        r == grabs_as(*b, keycode, mask),
{
    match evdev_to_x11_key(b) {
        Some((k, m)) => k == keycode && m == mask,
        None => false,
    }
}

/// The command of an X11 key press with keycode `keycode` and event state
/// `state` (its lock keys ignored).
pub fn x11_command_for(config: &HotkeyConfiguration, keycode: u8, state: u16) -> (r: Option<CycleCommand>)
    ensures
        match x11_resolve(*config, keycode, state & 77) {
            None => r is None,
            Some(Resolution::Forward) => r == Some(CycleCommand::Forward),
            Some(Resolution::Backward) => r == Some(CycleCommand::Backward),
            Some(Resolution::Character(i)) => r matches Some(CycleCommand::CharacterHotkey(b))
                && b@ == config.character_hotkeys@[i]@,
            Some(_) => false,
        },
{
    let mask = normalize_modmask(state);
    let v = &config.character_hotkeys;
    let mut i = v.len();
    assert(v@.subrange(0, i as int) =~= v@);
    while i > 0
        invariant
            i <= v@.len(),
            v@ == config.character_hotkeys@,
            mask == state & 77,
            last_grab(v@, keycode, mask) == last_grab(v@.subrange(0, i as int), keycode, mask),
        decreases i,
    {
        let ghost pre = v@.subrange(0, i as int);
        assert(pre.drop_last() =~= v@.subrange(0, i - 1));
        assert(pre.last() == v@[i - 1]);
        if grabs(&v[i - 1], keycode, mask) {
            return Some(CycleCommand::CharacterHotkey(v[i - 1].duplicate()));
        }
        i = i - 1;
    }
    if let Some(b) = &config.backward_key {
        if grabs(b, keycode, mask) {
            return Some(CycleCommand::Backward);
        }
    }
    if let Some(b) = &config.forward_key {
        if grabs(b, keycode, mask) {
            return Some(CycleCommand::Forward);
        }
    }
    None
}

/// Which devices the evdev listener uses.
#[derive(Debug, Clone, PartialEq, Eq)]
pub enum DeviceSelection {
    /// No device chosen: hotkeys are off.
    Disabled,
    /// Every keyboard and mouse.
    All,
    /// The devices the bindings were captured from.
    Auto,
    /// One device by its `/dev/input/by-id` name (older configurations).
    Device(String),
}

/// The device selection of the profile's input device setting.
pub fn device_selection(input_device: Option<&str>) -> (r: DeviceSelection)
    ensures
        input_device is None ==> r == DeviceSelection::Disabled,
        input_device matches Some(d) ==> {
            if d@ == "all"@ {
                r == DeviceSelection::All
            } else if d@ == "auto"@ {
                r == DeviceSelection::Auto
            } else {
                r matches DeviceSelection::Device(n) && n@ == d@
            }
        },
{
    match input_device {
        None => DeviceSelection::Disabled,
        Some(d) => {
            if str_eq(d, "all") {
                DeviceSelection::All
            } else if str_eq(d, "auto") {
                DeviceSelection::Auto
            } else {
                DeviceSelection::Device(crate::text::owned(d))
            }
        },
    }
}

} // verus!
