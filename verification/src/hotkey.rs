//! Hotkey bindings (a key code with modifiers) and the mapping between
//! evdev key codes, their Linux names (KEY_*) and display names.

use vstd::prelude::*;
use crate::text::{push_char, owned, str_eq, starts_with, substring, is_whitespace, char_is_whitespace, has_prefix};
use crate::name_map::Duplicate;

verus! {

/// The name evdev's `Debug` rendering gives a key code (e.g. "KEY_TAB").
pub uninterp spec fn evdev_key_debug_name(code: u16) -> Seq<char>;

/// The key code whose Linux name (KEY_*) evdev parses `name` as, if any.
pub uninterp spec fn evdev_key_code_of_name(name: Seq<char>) -> Option<u16>;

/// Whether every character is ASCII.
pub open spec fn ascii_only(s: Seq<char>) -> bool {
    forall|i: int| 0 <= i < s.len() ==> (#[trigger] s[i] as u32) < 128
}

/// `format!("{:?}", evdev::KeyCode(code))`: evdev prints the first
/// constant's name for the code (such as "KEY_TAB"), or "unknown key: N"
/// for a code without one. The contract names the result and states that
/// it is ASCII; that, when evdev's `from_str` accepts it, it parses back
/// to the same code (constant names are unique and `from_str` looks them
/// up); and that the name of a modifier key is printed only for that
/// key's code (KEY_LEFTCTRL = 29, KEY_RIGHTCTRL = 97, KEY_LEFTSHIFT = 42,
/// KEY_RIGHTSHIFT = 54, KEY_LEFTALT = 56, KEY_RIGHTALT = 100,
/// KEY_LEFTMETA = 125, KEY_RIGHTMETA = 126); nothing more.
#[verifier::external_body]
fn evdev_key_name(code: u16) -> (name: String)
    ensures
        name@ == evdev_key_debug_name(code),
        ascii_only(name@),
        evdev_key_code_of_name(name@) is Some ==> evdev_key_code_of_name(name@) == Some(code),
        name@ == "KEY_LEFTCTRL"@ ==> code == 29,
        name@ == "KEY_RIGHTCTRL"@ ==> code == 97,
        name@ == "KEY_LEFTSHIFT"@ ==> code == 42,
        name@ == "KEY_RIGHTSHIFT"@ ==> code == 54,
        name@ == "KEY_LEFTALT"@ ==> code == 56,
        name@ == "KEY_RIGHTALT"@ ==> code == 100,
        name@ == "KEY_LEFTMETA"@ ==> code == 125,
        name@ == "KEY_RIGHTMETA"@ ==> code == 126,
{
    format!("{:?}", evdev::KeyCode(code))
}

/// `evdev::KeyCode::from_str(name)`: looks `name` up in evdev's table of
/// key constant names; the contract names the result.
#[verifier::external_body]
fn evdev_parse_key_name(name: &str) -> (r: Option<u16>)
    ensures
        r == evdev_key_code_of_name(name@),
{
    match <evdev::KeyCode as std::str::FromStr>::from_str(name) {
        Ok(key) => Some(key.code()),
        Err(_) => None,
    }
}

/// A keyboard hotkey: a key code with modifier flags, and the input
/// devices that produced it when it was captured.
#[derive(Debug, Clone, PartialEq, Eq, Hash)]
pub struct HotkeyBinding {
    /// evdev key code (KEY_TAB = 15, KEY_F1 = 59, ...).
    pub key_code: u16,
    pub ctrl: bool,
    pub shift: bool,
    pub alt: bool,
    pub super_key: bool,
    /// Devices that contributed to the binding.
    pub source_devices: Vec<String>,
}

pub fn copy_string_vec(v: &Vec<String>) -> (r: Vec<String>)
    ensures
        r@ == v@,
{
    let mut r: Vec<String> = Vec::new();
    let mut i: usize = 0;
    while i < v.len()
        invariant
            i <= v@.len(),
            r@ == v@.subrange(0, i as int),
        decreases v@.len() - i,
    {
        r.push(v[i].clone());
        proof { assert(r@ =~= v@.subrange(0, i + 1)); }
        i = i + 1;
    }
    assert(r@ =~= v@);
    r
}

/// The mathematical value of a binding.
pub struct HotkeyModel {
    pub key_code: u16,
    pub ctrl: bool,
    pub shift: bool,
    pub alt: bool,
    pub super_key: bool,
    pub source_devices: Seq<Seq<char>>,
}

impl View for HotkeyBinding {
    type V = HotkeyModel;

    open spec fn view(&self) -> HotkeyModel {
        HotkeyModel {
            key_code: self.key_code,
            ctrl: self.ctrl,
            shift: self.shift,
            alt: self.alt,
            super_key: self.super_key,
            source_devices: string_views(self.source_devices@),
        }
    }
}

impl Duplicate for HotkeyBinding {
    fn duplicate(&self) -> (r: HotkeyBinding) {
        HotkeyBinding {
            key_code: self.key_code,
            ctrl: self.ctrl,
            shift: self.shift,
            alt: self.alt,
            super_key: self.super_key,
            source_devices: copy_string_vec(&self.source_devices),
        }
    }
}

/// The "Ctrl+", "Shift+", "Alt+", "Super+" prefix of a display name.
pub open spec fn modifier_prefix(ctrl: bool, shift: bool, alt: bool, super_key: bool) -> Seq<char> {
    (if ctrl { "Ctrl+"@ } else { Seq::empty() }) + (if shift { "Shift+"@ } else { Seq::empty() })
        + (if alt { "Alt+"@ } else { Seq::empty() }) + (if super_key { "Super+"@ } else { Seq::empty() })
}

/// Whether `code` is the key code of a modifier key (left or right Ctrl,
/// Shift, Alt or Meta).
pub open spec fn modifier_key_code(code: u16) -> bool {
    code == 29 || code == 97 || code == 42 || code == 54 || code == 56 || code == 100 || code == 125 || code == 126
}

/// Which modifier a Linux key name denotes: 0 Ctrl, 1 Shift, 2 Alt, 3 Super.
pub open spec fn modifier_kind(name: Seq<char>) -> Option<nat> {
    if name == "KEY_LEFTCTRL"@ || name == "KEY_RIGHTCTRL"@ {
        Some(0)
    } else if name == "KEY_LEFTSHIFT"@ || name == "KEY_RIGHTSHIFT"@ {
        Some(1)
    } else if name == "KEY_LEFTALT"@ || name == "KEY_RIGHTALT"@ {
        Some(2)
    } else if name == "KEY_LEFTMETA"@ || name == "KEY_RIGHTMETA"@ {
        Some(3)
    } else {
        None
    }
}

/// Index of the first key name from `start` on that is not a modifier
/// (`keys.len()` when there is none).
pub open spec fn first_non_modifier(keys: Seq<Seq<char>>, start: int) -> int
    decreases keys.len() - start,
{
    if start >= keys.len() {
        keys.len() as int
    } else if modifier_kind(keys[start]) is None {
        start
    } else {
        first_non_modifier(keys, start + 1)
    }
}

/// Whether one of the first `n` key names is modifier `kind`.
pub open spec fn has_modifier(keys: Seq<Seq<char>>, n: int, kind: nat) -> bool {
    exists|i: int| 0 <= i < n && #[trigger] modifier_kind(keys[i]) == Some(kind)
}

/// The binding a list of key names denotes (modifiers first, main key
/// last), or the error message for it.
pub open spec fn spec_from_key_array(keys: Seq<Seq<char>>) -> Result<(u16, bool, bool, bool, bool), Seq<char>> {
    let n = keys.len() as int;
    let f = first_non_modifier(keys, 0);
    if n == 0 {
        Err("Empty key array"@)
    } else if f == n {
        Err("No main key found in array"@)
    } else if f < n - 1 {
        Err("Non-modifier key '"@ + keys[f] + "' must be last in array"@)
    } else {
        match evdev_key_code_of_name(keys[f]) {
            None => Err("Unknown key name: "@ + keys[f]),
            Some(code) => Ok((
                code,
                has_modifier(keys, n - 1, 0),
                has_modifier(keys, n - 1, 1),
                has_modifier(keys, n - 1, 2),
                has_modifier(keys, n - 1, 3),
            )),
        }
    }
}

/// The character-sequence views of a list of strings.
pub open spec fn string_views(v: Seq<String>) -> Seq<Seq<char>> {
    v.map_values(|s: String| s@)
}

/// The Linux key names of a binding: modifiers (Ctrl, Shift, Alt, Super
/// order) then evdev's name of the main key.
pub open spec fn spec_key_array(b: HotkeyBinding) -> Seq<Seq<char>> {
    (if b.ctrl { seq!["KEY_LEFTCTRL"@] } else { Seq::empty() })
        + (if b.shift { seq!["KEY_LEFTSHIFT"@] } else { Seq::empty() })
        + (if b.alt { seq!["KEY_LEFTALT"@] } else { Seq::empty() })
        + (if b.super_key { seq!["KEY_LEFTMETA"@] } else { Seq::empty() })
        + seq![evdev_key_debug_name(b.key_code)]
}

fn modifier_of(name: &str) -> (r: Option<u8>)
    ensures
        r matches Some(k) ==> modifier_kind(name@) == Some(k as nat),
        r is None ==> modifier_kind(name@) is None,
{
    if str_eq(name, "KEY_LEFTCTRL") || str_eq(name, "KEY_RIGHTCTRL") {
        Some(0)
    } else if str_eq(name, "KEY_LEFTSHIFT") || str_eq(name, "KEY_RIGHTSHIFT") {
        Some(1)
    } else if str_eq(name, "KEY_LEFTALT") || str_eq(name, "KEY_RIGHTALT") {
        Some(2)
    } else if str_eq(name, "KEY_LEFTMETA") || str_eq(name, "KEY_RIGHTMETA") {
        Some(3)
    } else {
        None
    }
}

proof fn lemma_first_non_modifier_range(keys: Seq<Seq<char>>, start: int)
    requires
        0 <= start,
    ensures
        start <= first_non_modifier(keys, start) || start >= keys.len(),
        first_non_modifier(keys, start) <= keys.len(),
        forall|j: int| start <= j < first_non_modifier(keys, start) ==> modifier_kind(#[trigger] keys[j]) is Some,
        first_non_modifier(keys, start) < keys.len() ==> modifier_kind(keys[first_non_modifier(keys, start)]) is None,
    decreases keys.len() - start,
{
    if start < keys.len() && modifier_kind(keys[start]) is Some {
        lemma_first_non_modifier_range(keys, start + 1);
    }
}

/// Saving a binding as key names and reading it back gives the same key
/// and modifiers, for every main key whose evdev name parses back to it
/// and is not itself a modifier's name.
pub proof fn lemma_key_array_round_trip(b: HotkeyBinding)
    requires
        evdev_key_code_of_name(evdev_key_debug_name(b.key_code)) == Some(b.key_code),
        modifier_kind(evdev_key_debug_name(b.key_code)) is None,
    ensures
        spec_from_key_array(spec_key_array(b)) == Ok::<(u16, bool, bool, bool, bool), Seq<char>>((b.key_code, b.ctrl, b.shift, b.alt, b.super_key)),
{
    reveal_strlit("KEY_LEFTCTRL");
    reveal_strlit("KEY_RIGHTCTRL");
    reveal_strlit("KEY_LEFTSHIFT");
    reveal_strlit("KEY_RIGHTSHIFT");
    reveal_strlit("KEY_LEFTALT");
    reveal_strlit("KEY_RIGHTALT");
    reveal_strlit("KEY_LEFTMETA");
    reveal_strlit("KEY_RIGHTMETA");
    let keys = spec_key_array(b);
    let name = evdev_key_debug_name(b.key_code);
    let mods = (if b.ctrl { seq!["KEY_LEFTCTRL"@] } else { Seq::empty() })
        + (if b.shift { seq!["KEY_LEFTSHIFT"@] } else { Seq::empty() })
        + (if b.alt { seq!["KEY_LEFTALT"@] } else { Seq::empty() })
        + (if b.super_key { seq!["KEY_LEFTMETA"@] } else { Seq::empty() });
    assert(keys =~= mods + seq![name]);
    let n = keys.len() as int;
    assert("KEY_LEFTCTRL"@.len() == 12 && "KEY_RIGHTCTRL"@.len() == 13 && "KEY_LEFTSHIFT"@.len() == 13);
    assert("KEY_RIGHTSHIFT"@.len() == 14 && "KEY_LEFTALT"@.len() == 11 && "KEY_RIGHTALT"@.len() == 12);
    assert("KEY_LEFTMETA"@.len() == 12 && "KEY_RIGHTMETA"@.len() == 13);
    assert("KEY_LEFTSHIFT"@[4] != "KEY_RIGHTCTRL"@[4]);
    assert("KEY_LEFTALT"@ != "KEY_RIGHTCTRL"@);
    assert("KEY_LEFTMETA"@[4] != "KEY_RIGHTALT"@[4]);
    assert("KEY_LEFTMETA"@[8] != "KEY_LEFTCTRL"@[8]);
    assert(modifier_kind("KEY_LEFTCTRL"@) == Some(0nat));
    assert(modifier_kind("KEY_LEFTSHIFT"@) == Some(1nat));
    assert(modifier_kind("KEY_LEFTALT"@) == Some(2nat));
    assert(modifier_kind("KEY_LEFTMETA"@) == Some(3nat));
    assert forall|j: int| 0 <= j < n - 1 implies modifier_kind(#[trigger] keys[j]) is Some by {
        assert(keys[j] == mods[j]);
    };
    lemma_main_key_last(keys, 0);
    assert(first_non_modifier(keys, 0) == n - 1);
    assert(has_modifier(keys, n - 1, 0) == b.ctrl) by {
        if b.ctrl {
            assert(keys[0] == "KEY_LEFTCTRL"@);
        }
        if has_modifier(keys, n - 1, 0) {
            let i = choose|i: int| 0 <= i < n - 1 && #[trigger] modifier_kind(keys[i]) == Some(0nat);
            assert(keys[i] == mods[i]);
        }
    };
    assert(has_modifier(keys, n - 1, 1) == b.shift) by {
        let k = if b.ctrl { 1int } else { 0int };
        if b.shift {
            assert(keys[k] == "KEY_LEFTSHIFT"@);
        }
        if has_modifier(keys, n - 1, 1) {
            let i = choose|i: int| 0 <= i < n - 1 && #[trigger] modifier_kind(keys[i]) == Some(1nat);
            assert(keys[i] == mods[i]);
        }
    };
    assert(has_modifier(keys, n - 1, 2) == b.alt) by {
        let k = (if b.ctrl { 1int } else { 0int }) + (if b.shift { 1int } else { 0int });
        if b.alt {
            assert(keys[k] == "KEY_LEFTALT"@);
        }
        if has_modifier(keys, n - 1, 2) {
            let i = choose|i: int| 0 <= i < n - 1 && #[trigger] modifier_kind(keys[i]) == Some(2nat);
            assert(keys[i] == mods[i]);
        }
    };
    assert(has_modifier(keys, n - 1, 3) == b.super_key) by {
        let k = (if b.ctrl { 1int } else { 0int }) + (if b.shift { 1int } else { 0int }) + (if b.alt { 1int } else { 0int });
        if b.super_key {
            assert(keys[k] == "KEY_LEFTMETA"@);
        }
        if has_modifier(keys, n - 1, 3) {
            let i = choose|i: int| 0 <= i < n - 1 && #[trigger] modifier_kind(keys[i]) == Some(3nat);
            assert(keys[i] == mods[i]);
        }
    };
}

/// When every key before the last is a modifier and the last is not, the
/// first non-modifier from `start` is the last key.
proof fn lemma_main_key_last(keys: Seq<Seq<char>>, start: int)
    requires
        0 <= start < keys.len(),
        forall|j: int| 0 <= j < keys.len() - 1 ==> modifier_kind(#[trigger] keys[j]) is Some,
        modifier_kind(keys[keys.len() - 1]) is None,
    ensures
        first_non_modifier(keys, start) == keys.len() - 1,
    decreases keys.len() - start,
{
    if start < keys.len() - 1 {
        lemma_main_key_last(keys, start + 1);
    }
}

impl HotkeyBinding {
    /// A binding without source devices.
    pub fn new(key_code: u16, ctrl: bool, shift: bool, alt: bool, super_key: bool) -> (b: HotkeyBinding)
        ensures
            b.key_code == key_code,
            b.ctrl == ctrl,
            b.shift == shift,
            b.alt == alt,
            b.super_key == super_key,
            b.source_devices@ == Seq::<String>::empty(),
    {
        HotkeyBinding { key_code, ctrl, shift, alt, super_key, source_devices: Vec::new() }
    }

    /// A binding with the devices that produced it.
    pub fn with_devices(
        key_code: u16,
        ctrl: bool,
        shift: bool,
        alt: bool,
        super_key: bool,
        source_devices: Vec<String>,
    ) -> (b: HotkeyBinding)
        ensures
            b.key_code == key_code,
            b.ctrl == ctrl,
            b.shift == shift,
            b.alt == alt,
            b.super_key == super_key,
            b.source_devices == source_devices,
    {
        HotkeyBinding { key_code, ctrl, shift, alt, super_key, source_devices }
    }

    /// Display name such as "Ctrl+Shift+F1".
    pub fn display_name(&self) -> (s: String)
        ensures
            s@ == modifier_prefix(self.ctrl, self.shift, self.alt, self.super_key) + spec_key_code_to_name(self.key_code),
    {
        let mut s = String::new();
        if self.ctrl {
            s.append("Ctrl+");
        }
        if self.shift {
            s.append("Shift+");
        }
        if self.alt {
            s.append("Alt+");
        }
        if self.super_key {
            s.append("Super+");
        }
        let name = key_code_to_name(self.key_code);
        s.append(name.as_str());
        assert(s@ =~= modifier_prefix(self.ctrl, self.shift, self.alt, self.super_key) + spec_key_code_to_name(self.key_code));
        s
    }

    /// Whether this binding matches a key press with the given modifier state.
    pub fn matches(&self, key_code: u16, ctrl: bool, shift: bool, alt: bool, super_key: bool) -> (b: bool)
        ensures
            b == (self.key_code == key_code && self.ctrl == ctrl && self.shift == shift && self.alt == alt
                && self.super_key == super_key),
    {
        self.key_code == key_code && self.ctrl == ctrl && self.shift == shift && self.alt == alt && self.super_key
            == super_key
    }

    /// The array form used when saving: modifier key names (Ctrl, Shift,
    /// Alt, Super order) then the main key's Linux name. Reading it back
    /// gives the same key and modifiers whenever the main key is no
    /// modifier key and its evdev name parses back to it.
    pub fn to_key_array(&self) -> (keys: Vec<String>)
        ensures
            string_views(keys@) == spec_key_array(*self),
            !modifier_key_code(self.key_code) && evdev_key_code_of_name(evdev_key_debug_name(self.key_code)) == Some(self.key_code)
                ==> spec_from_key_array(string_views(keys@)) == Ok::<(u16, bool, bool, bool, bool), Seq<char>>(
                    (self.key_code, self.ctrl, self.shift, self.alt, self.super_key),
                ),
    {
        let mut keys: Vec<String> = Vec::new();
        if self.ctrl {
            keys.push(owned("KEY_LEFTCTRL"));
        }
        if self.shift {
            keys.push(owned("KEY_LEFTSHIFT"));
        }
        if self.alt {
            keys.push(owned("KEY_LEFTALT"));
        }
        if self.super_key {
            keys.push(owned("KEY_LEFTMETA"));
        }
        let main = evdev_key_name(self.key_code);
        proof {
            if !modifier_key_code(self.key_code) {
                reveal_strlit("KEY_LEFTCTRL");
                reveal_strlit("KEY_RIGHTCTRL");
                reveal_strlit("KEY_LEFTSHIFT");
                reveal_strlit("KEY_RIGHTSHIFT");
                reveal_strlit("KEY_LEFTALT");
                reveal_strlit("KEY_RIGHTALT");
                reveal_strlit("KEY_LEFTMETA");
                reveal_strlit("KEY_RIGHTMETA");
                assert(modifier_kind(main@) is None);
                if evdev_key_code_of_name(evdev_key_debug_name(self.key_code)) == Some(self.key_code) {
                    lemma_key_array_round_trip(*self);
                }
            }
        }
        keys.push(main);
        assert(string_views(keys@) =~= spec_key_array(*self));
        keys
    }

    /// Parse the array form: modifier names in any order, the main key last.
    pub fn from_key_array(keys: &[String]) -> (r: Result<HotkeyBinding, String>)
        ensures
            r matches Ok(b) ==> spec_from_key_array(string_views(keys@)) == Ok::<_, Seq<char>>((b.key_code, b.ctrl, b.shift, b.alt, b.super_key))
                && b.source_devices@.len() == 0,
            r matches Err(e) ==> spec_from_key_array(string_views(keys@)) == Err::<(u16, bool, bool, bool, bool), _>(e@),
    {
        let ghost views = string_views(keys@);
        let n = keys.len();
        if n == 0 {
            return Err(owned("Empty key array"));
        }
        let mut ctrl = false;
        let mut shift = false;
        let mut alt = false;
        let mut super_key = false;
        let mut i: usize = 0;
        while i < n
            invariant
                i <= n,
                n == keys@.len(),
                views == string_views(keys@),
                views.len() == n,
                forall|j: int| 0 <= j < i ==> modifier_kind(#[trigger] views[j]) is Some,
                ctrl == has_modifier(views, i as int, 0),
                shift == has_modifier(views, i as int, 1),
                alt == has_modifier(views, i as int, 2),
                super_key == has_modifier(views, i as int, 3),
            decreases n - i,
        {
            let name = keys[i].as_str();
            assert(views[i as int] == keys@[i as int]@);
            match modifier_of(name) {
                Some(k) => {
                    proof {
                        assert forall|kind: nat| #[trigger] has_modifier(views, i + 1, kind) == (has_modifier(views, i as int, kind) || k == kind) by {
                            if has_modifier(views, i + 1, kind) {
                                let w = choose|w: int| 0 <= w < i + 1 && #[trigger] modifier_kind(views[w]) == Some(kind);
                                if w < i {
                                    assert(has_modifier(views, i as int, kind));
                                }
                            }
                            if has_modifier(views, i as int, kind) {
                                let w = choose|w: int| 0 <= w < i && #[trigger] modifier_kind(views[w]) == Some(kind);
                                assert(0 <= w < i + 1 && modifier_kind(views[w]) == Some(kind));
                            }
                            if k == kind {
                                assert(modifier_kind(views[i as int]) == Some(kind));
                            }
                        };
                    }
                    if k == 0 {
                        ctrl = true;
                    } else if k == 1 {
                        shift = true;
                    } else if k == 2 {
                        alt = true;
                    } else {
                        super_key = true;
                    }
                    i = i + 1;
                },
                None => {
                    proof {
                        lemma_first_non_modifier_range(views, 0);
                        lemma_first_non_modifier_at(views, i as int);
                    }
                    if i == n - 1 {
                        match evdev_parse_key_name(name) {
                            Some(code) => {
                                return Ok(HotkeyBinding::new(code, ctrl, shift, alt, super_key));
                            },
                            None => {
                                let mut msg = owned("Unknown key name: ");
                                msg.append(name);
                                return Err(msg);
                            },
                        }
                    } else {
                        let mut msg = owned("Non-modifier key '");
                        msg.append(name);
                        msg.append("' must be last in array");
                        return Err(msg);
                    }
                },
            }
        }
        proof {
            lemma_first_non_modifier_all(views, 0);
        }
        Err(owned("No main key found in array"))
    }
}

proof fn lemma_first_non_modifier_at(keys: Seq<Seq<char>>, i: int)
    requires
        0 <= i < keys.len(),
        forall|j: int| 0 <= j < i ==> modifier_kind(#[trigger] keys[j]) is Some,
        modifier_kind(keys[i]) is None,
    ensures
        first_non_modifier(keys, 0) == i,
{
    lemma_first_non_modifier_from(keys, 0, i);
}

proof fn lemma_first_non_modifier_from(keys: Seq<Seq<char>>, s: int, i: int)
    requires
        0 <= s <= i < keys.len(),
        forall|j: int| s <= j < i ==> modifier_kind(#[trigger] keys[j]) is Some,
        modifier_kind(keys[i]) is None,
    ensures
        first_non_modifier(keys, s) == i,
    decreases i - s,
{
    if s < i {
        lemma_first_non_modifier_from(keys, s + 1, i);
    }
}

proof fn lemma_first_non_modifier_all(keys: Seq<Seq<char>>, s: int)
    requires
        0 <= s <= keys.len(),
        forall|j: int| s <= j < keys.len() ==> modifier_kind(#[trigger] keys[j]) is Some,
    ensures
        first_non_modifier(keys, s) == keys.len(),
    decreases keys.len() - s,
{
    if s < keys.len() {
        lemma_first_non_modifier_all(keys, s + 1);
    }
}

impl Default for HotkeyBinding {
    /// Tab with no modifiers.
    fn default() -> (b: HotkeyBinding)
        ensures
            b.key_code == 15,
            !b.ctrl && !b.shift && !b.alt && !b.super_key,
            b.source_devices@.len() == 0,
    {
        HotkeyBinding::new(15, false, false, false, false)
    }
}

/// The display name of a key name without its "KEY_" prefix, for the keys
/// that get a hand-written one.
pub open spec fn special_key_name(n: Seq<char>) -> Option<Seq<char>> {
    if n == "LEFTCTRL"@ { Some("Left Ctrl"@) }
    else if n == "RIGHTCTRL"@ { Some("Right Ctrl"@) }
    else if n == "LEFTSHIFT"@ { Some("Left Shift"@) }
    else if n == "RIGHTSHIFT"@ { Some("Right Shift"@) }
    else if n == "LEFTALT"@ { Some("Left Alt"@) }
    else if n == "RIGHTALT"@ { Some("Right Alt"@) }
    else if n == "LEFTMETA"@ { Some("Left Super"@) }
    else if n == "RIGHTMETA"@ { Some("Right Super"@) }
    else if n == "ESC"@ { Some("Esc"@) }
    else if n == "BACKSPACE"@ { Some("Backspace"@) }
    else if n == "ENTER"@ { Some("Enter"@) }
    else if n == "SPACE"@ { Some("Space"@) }
    else if n == "CAPSLOCK"@ { Some("Caps Lock"@) }
    else if n == "NUMLOCK"@ { Some("Num Lock"@) }
    else if n == "SCROLLLOCK"@ { Some("Scroll Lock"@) }
    else if n == "SYSRQ"@ { Some("Print Screen"@) }
    else if n == "PAGEUP"@ { Some("Page Up"@) }
    else if n == "PAGEDOWN"@ { Some("Page Down"@) }
    else if n == "INSERT"@ { Some("Insert"@) }
    else if n == "DELETE"@ { Some("Delete"@) }
    else if n == "HOME"@ { Some("Home"@) }
    else if n == "END"@ { Some("End"@) }
    else if n == "VOLUMEUP"@ { Some("Volume Up"@) }
    else if n == "VOLUMEDOWN"@ { Some("Volume Down"@) }
    else if n == "MUTE"@ { Some("Mute"@) }
    else if n == "PLAYPAUSE"@ { Some("Play/Pause"@) }
    else if n == "STOPCD"@ { Some("Stop"@) }
    else if n == "NEXTSONG"@ { Some("Next"@) }
    else if n == "PREVIOUSSONG"@ { Some("Previous"@) }
    else { None }
}

/// The display name of a numpad key from what follows "KP".
pub open spec fn numpad_name(rest: Seq<char>) -> Seq<char> {
    if rest == "ENTER"@ { "Numpad Enter"@ }
    else if rest == "PLUS"@ { "Numpad Plus"@ }
    else if rest == "MINUS"@ { "Numpad Minus"@ }
    else if rest == "ASTERISK"@ { "Numpad Asterisk"@ }
    else if rest == "SLASH"@ { "Numpad Slash"@ }
    else if rest == "DOT"@ { "Numpad Period"@ }
    else { "Numpad "@ + rest }
}

pub open spec fn ascii_upper(c: char) -> char {
    if 'a' <= c && c <= 'z' { (((c as u32) - 32) as u8) as char } else { c }
}

pub open spec fn ascii_lower(c: char) -> char {
    if 'A' <= c && c <= 'Z' { (((c as u32) + 32) as u8) as char } else { c }
}

/// Separators between words of a key name: '_' and whitespace.
pub open spec fn is_separator(c: char) -> bool {
    c == '_' || is_whitespace(c)
}

/// Title-casing of `s` from position `i`: words are the runs between
/// separators, each becomes its first letter upper-case and the rest
/// lower-case, and the words are joined by single spaces. `mode` 0: no
/// word seen yet; 1: inside a word; 2: between words.
pub open spec fn title_case_from(s: Seq<char>, i: int, mode: nat) -> Seq<char>
    decreases s.len() - i,
{
    if i >= s.len() || i < 0 {
        Seq::empty()
    } else if mode == 1 {
        if is_separator(s[i]) {
            title_case_from(s, i + 1, 2)
        } else {
            seq![ascii_lower(s[i])] + title_case_from(s, i + 1, 1)
        }
    } else {
        if is_separator(s[i]) {
            title_case_from(s, i + 1, mode)
        } else {
            (if mode == 2 { seq![' '] } else { Seq::empty() }) + seq![ascii_upper(s[i])] + title_case_from(s, i + 1, 1)
        }
    }
}

/// Display name of a key name without its "KEY_" prefix.
pub open spec fn format_key_name(name: Seq<char>) -> Seq<char> {
    if special_key_name(name) is Some {
        special_key_name(name)->0
    } else if has_prefix(name, "KP"@) {
        numpad_name(name.skip(2))
    } else if name.len() == 1 {
        name
    } else if name.len() <= 3 && name[0] == 'F' {
        name
    } else {
        title_case_from(name, 0, 0)
    }
}

/// Human-readable name of an evdev key code, e.g. 15 -> "Tab",
/// 29 -> "Left Ctrl", 79 -> "Numpad 1".
pub open spec fn spec_key_code_to_name(code: u16) -> Seq<char> {
    let linux = evdev_key_debug_name(code);
    format_key_name(if has_prefix(linux, "KEY_"@) { linux.skip(4) } else { linux })
}

fn upper(c: char) -> (r: char)
    ensures
        r == ascii_upper(c),
{
    if 'a' <= c && c <= 'z' { (((c as u32) - 32) as u8) as char } else { c }
}

fn lower(c: char) -> (r: char)
    ensures
        r == ascii_lower(c),
{
    if 'A' <= c && c <= 'Z' { (((c as u32) + 32) as u8) as char } else { c }
}

fn title_case(s: &str) -> (r: String)
    ensures
        r@ == title_case_from(s@, 0, 0),
{
    let n = s.unicode_len();
    let mut out = String::new();
    let mut mode: u8 = 0;
    let mut i: usize = 0;
    while i < n
        invariant
            i <= n,
            n == s@.len(),
            mode <= 2,
            out@ + title_case_from(s@, i as int, mode as nat) == title_case_from(s@, 0, 0),
        decreases n - i,
    {
        let c = s.get_char(i);
        let sep = c == '_' || char_is_whitespace(c);
        let ghost before = out@;
        if mode == 1 {
            if sep {
                mode = 2;
            } else {
                push_char(&mut out, lower(c));
                assert(out@ + title_case_from(s@, i + 1, 1) =~= before + title_case_from(s@, i as int, 1));
            }
        } else {
            if sep {
            } else {
                if mode == 2 {
                    push_char(&mut out, ' ');
                }
                push_char(&mut out, upper(c));
                let ghost m = mode;
                assert(out@ + title_case_from(s@, i + 1, 1) =~= before + title_case_from(s@, i as int, m as nat));
                mode = 1;
            }
        }
        i = i + 1;
    }
    assert(out@ + title_case_from(s@, n as int, mode as nat) =~= out@);
    out
}

fn special_name(n: &str) -> (r: Option<String>)
    ensures
        r matches Some(v) ==> special_key_name(n@) == Some(v@),
        r is None ==> special_key_name(n@) is None,
{
    if str_eq(n, "LEFTCTRL") { Some(owned("Left Ctrl")) }
    else if str_eq(n, "RIGHTCTRL") { Some(owned("Right Ctrl")) }
    else if str_eq(n, "LEFTSHIFT") { Some(owned("Left Shift")) }
    else if str_eq(n, "RIGHTSHIFT") { Some(owned("Right Shift")) }
    else if str_eq(n, "LEFTALT") { Some(owned("Left Alt")) }
    else if str_eq(n, "RIGHTALT") { Some(owned("Right Alt")) }
    else if str_eq(n, "LEFTMETA") { Some(owned("Left Super")) }
    else if str_eq(n, "RIGHTMETA") { Some(owned("Right Super")) }
    else if str_eq(n, "ESC") { Some(owned("Esc")) }
    else if str_eq(n, "BACKSPACE") { Some(owned("Backspace")) }
    else if str_eq(n, "ENTER") { Some(owned("Enter")) }
    else if str_eq(n, "SPACE") { Some(owned("Space")) }
    else if str_eq(n, "CAPSLOCK") { Some(owned("Caps Lock")) }
    else if str_eq(n, "NUMLOCK") { Some(owned("Num Lock")) }
    else if str_eq(n, "SCROLLLOCK") { Some(owned("Scroll Lock")) }
    else if str_eq(n, "SYSRQ") { Some(owned("Print Screen")) }
    else if str_eq(n, "PAGEUP") { Some(owned("Page Up")) }
    else if str_eq(n, "PAGEDOWN") { Some(owned("Page Down")) }
    else if str_eq(n, "INSERT") { Some(owned("Insert")) }
    else if str_eq(n, "DELETE") { Some(owned("Delete")) }
    else if str_eq(n, "HOME") { Some(owned("Home")) }
    else if str_eq(n, "END") { Some(owned("End")) }
    else if str_eq(n, "VOLUMEUP") { Some(owned("Volume Up")) }
    else if str_eq(n, "VOLUMEDOWN") { Some(owned("Volume Down")) }
    else if str_eq(n, "MUTE") { Some(owned("Mute")) }
    else if str_eq(n, "PLAYPAUSE") { Some(owned("Play/Pause")) }
    else if str_eq(n, "STOPCD") { Some(owned("Stop")) }
    else if str_eq(n, "NEXTSONG") { Some(owned("Next")) }
    else if str_eq(n, "PREVIOUSSONG") { Some(owned("Previous")) }
    else { None }
}

fn numpad(rest: &str) -> (r: String)
    ensures
        r@ == numpad_name(rest@),
{
    if str_eq(rest, "ENTER") { owned("Numpad Enter") }
    else if str_eq(rest, "PLUS") { owned("Numpad Plus") }
    else if str_eq(rest, "MINUS") { owned("Numpad Minus") }
    else if str_eq(rest, "ASTERISK") { owned("Numpad Asterisk") }
    else if str_eq(rest, "SLASH") { owned("Numpad Slash") }
    else if str_eq(rest, "DOT") { owned("Numpad Period") }
    else {
        let mut s = owned("Numpad ");
        s.append(rest);
        s
    }
}

fn format_name(name: &str) -> (r: String)
    ensures
        r@ == format_key_name(name@),
{
    if let Some(v) = special_name(name) {
        return v;
    }
    let n = name.unicode_len();
    if starts_with(name, "KP") {
        proof { reveal_strlit("KP"); }
        let rest = substring(name, 2, n);
        assert(rest@ =~= name@.skip(2));
        return numpad(rest.as_str());
    }
    if n == 1 {
        return owned(name);
    }
    if n >= 1 && n <= 3 && name.get_char(0) == 'F' {
        return owned(name);
    }
    title_case(name)
}

/// Human-readable name of an evdev key code (for the UI).
pub fn key_code_to_name(code: u16) -> (s: String)
    ensures
        s@ == spec_key_code_to_name(code),
{
    let linux = evdev_key_name(code);
    let n = linux.unicode_len();
    if starts_with(linux.as_str(), "KEY_") {
        proof { reveal_strlit("KEY_"); }
        let rest = substring(linux.as_str(), 4, n);
        assert(rest@ =~= linux@.skip(4));
        format_name(rest.as_str())
    } else {
        format_name(linux.as_str())
    }
}

/// Key code for a Linux key name (KEY_*), as evdev parses it.
pub fn linux_name_to_key_code(name: &str) -> (r: Option<u16>)
    ensures
        r == evdev_key_code_of_name(name@),
{
    evdev_parse_key_name(name)
}

} // verus!
