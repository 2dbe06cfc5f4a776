//! Interactive hotkey capture: the live state shown while the user presses
//! keys, and the decisions taken on each key event. The input devices and
//! the X server are read by the caller, which hands every event over.

use vstd::prelude::*;
use crate::constants;
use crate::hotkey::{HotkeyBinding, modifier_prefix, spec_key_code_to_name, string_views};
use crate::text::{lex_le, owned, str_eq, str_le, lemma_lex_total, lemma_lex_antisymmetric};

verus! {

/// How a capture ended.
#[derive(Debug, Clone)]
pub enum CaptureResult {
    /// A key (with its modifiers) was captured.
    Captured(HotkeyBinding),
    /// The user pressed Escape or the capture was cancelled.
    Cancelled,
    /// No key was pressed in time.
    Timeout,
    /// The capture could not run.
    Error(String),
}

/// What the caller does after a key event.
#[derive(Debug, Clone)]
pub enum CaptureStep {
    /// Nothing changed.
    Ignored,
    /// The live state changed: show it.
    Updated,
    /// Escape was pressed: stop, cancelled.
    Cancelled,
    /// A key was captured: show the state and stop with this binding.
    Captured(HotkeyBinding),
}

/// Live capture state shown to the user.
#[derive(Debug, Clone, PartialEq)]
pub struct CaptureState {
    pub ctrl: bool,
    pub shift: bool,
    pub alt: bool,
    pub super_key: bool,
    /// The main key, once a key that is no modifier was pressed.
    pub key_code: Option<u16>,
    /// What is being detected, in words.
    pub description: String,
}

/// The description of a capture state: the prompt while nothing is held,
/// the held modifiers followed by "?" while waiting for the main key, and
/// the binding's display name once the key is captured.
pub open spec fn capture_description(ctrl: bool, shift: bool, alt: bool, super_key: bool, key_code: Option<u16>) -> Seq<char> {
    match key_code {
        None => if !(ctrl || shift || alt || super_key) {
            "Press any key or mouse button..."@
        } else {
            modifier_prefix(ctrl, shift, alt, super_key) + "?"@
        },
        Some(k) => modifier_prefix(ctrl, shift, alt, super_key) + spec_key_code_to_name(k),
    }
}

/// Which modifier a key code is: 0 Ctrl, 1 Shift, 2 Alt, 3 Super.
pub open spec fn modifier_of(code: u16) -> Option<nat> {
    if code == 29 || code == 97 {
        Some(0)
    } else if code == 42 || code == 54 {
        Some(1)
    } else if code == 56 || code == 100 {
        Some(2)
    } else if code == 125 || code == 126 {
        Some(3)
    } else {
        None
    }
}

/// Whether a state's description matches its other fields.
pub open spec fn described(s: CaptureState) -> bool {
    s.description@ == capture_description(s.ctrl, s.shift, s.alt, s.super_key, s.key_code)
}

/// `s` with modifier `kind` set to `on`.
pub open spec fn with_modifier(s: CaptureState, kind: nat, on: bool) -> CaptureState {
    CaptureState {
        ctrl: if kind == 0 { on } else { s.ctrl },
        shift: if kind == 1 { on } else { s.shift },
        alt: if kind == 2 { on } else { s.alt },
        super_key: if kind == 3 { on } else { s.super_key },
        ..s
    }
}

/// Whether `t` is `s` with a fresh description.
pub open spec fn redescribed(s: CaptureState, t: CaptureState) -> bool {
    &&& t.ctrl == s.ctrl
    &&& t.shift == s.shift
    &&& t.alt == s.alt
    &&& t.super_key == s.super_key
    &&& t.key_code == s.key_code
    &&& described(t)
}

impl CaptureState {
    /// Nothing held yet.
    pub fn new() -> (s: CaptureState)
        ensures
            !s.ctrl && !s.shift && !s.alt && !s.super_key,
            s.key_code is None,
            described(s),
    {
        CaptureState {
            ctrl: false,
            shift: false,
            alt: false,
            super_key: false,
            key_code: None,
            description: owned("Press any key or mouse button..."),
        }
    }

    /// Rewrite the description from the other fields.
    pub fn update_description(&mut self)
        ensures
            redescribed(*old(self), *final(self)),
    {
        match self.key_code {
            None => {
                if !(self.ctrl || self.shift || self.alt || self.super_key) {
                    self.description = owned("Press any key or mouse button...");
                } else {
                    let mut d = String::new();
                    if self.ctrl {
                        d.append("Ctrl+");
                    }
                    if self.shift {
                        d.append("Shift+");
                    }
                    if self.alt {
                        d.append("Alt+");
                    }
                    if self.super_key {
                        d.append("Super+");
                    }
                    d.append("?");
                    self.description = d;
                }
            },
            Some(k) => {
                let binding = HotkeyBinding::new(k, self.ctrl, self.shift, self.alt, self.super_key);
                self.description = binding.display_name();
            },
        }
    }

    fn set_modifier(&mut self, kind: u8, on: bool)
        requires
            kind < 4,
        ensures
            *final(self) == with_modifier(*old(self), kind as nat, on),
    {
        if kind == 0 {
            self.ctrl = on;
        } else if kind == 1 {
            self.shift = on;
        } else if kind == 2 {
            self.alt = on;
        } else {
            self.super_key = on;
        }
    }
}

impl Default for CaptureState {
    fn default() -> (s: CaptureState)
        ensures
            !s.ctrl && !s.shift && !s.alt && !s.super_key,
            s.key_code is None,
            described(s),
    {
        CaptureState::new()
    }
}

fn modifier_kind_of(code: u16) -> (r: Option<u8>)
    ensures
        r is None <==> modifier_of(code) is None,
        r matches Some(k) ==> modifier_of(code) == Some(k as nat) && k < 4,
{
    if code == 29 || code == 97 {
        Some(0)
    } else if code == 42 || code == 54 {
        Some(1)
    } else if code == 56 || code == 100 {
        Some(2)
    } else if code == 125 || code == 126 {
        Some(3)
    } else {
        None
    }
}

/// Whether every element comes strictly before the next.
pub open spec fn strictly_sorted(v: Seq<Seq<char>>) -> bool {
    forall|i: int, j: int| 0 <= i < j < v.len() ==> lex_le(#[trigger] v[i], #[trigger] v[j]) && v[i] != v[j]
}


/// The capture after a key event of an input device, and what the caller
/// does: a modifier press or release sets that modifier and joins the
/// device (on press); Escape cancels; the left and right mouse buttons are
/// ignored; any other press is the main key, joins its device and ends the
/// capture with the binding of the held modifiers and the devices in
/// order; other events only refresh the description.
pub open spec fn evdev_step(
    s: CaptureState,
    devices: Set<Seq<char>>,
    event_type: u16,
    key_code: u16,
    value: i32,
    device: Seq<char>,
    t: CaptureState,
    devices_after: Seq<Seq<char>>,
    step: CaptureStep,
) -> bool {
    if event_type != constants::EV_KEY {
        step is Ignored && t == s && devices_after.to_set() == devices
    } else if modifier_of(key_code) is Some {
        let on = value != constants::KEY_RELEASE;
        &&& step is Updated
        &&& redescribed(with_modifier(s, modifier_of(key_code).unwrap(), on), t)
        &&& devices_after.to_set() == (if on { devices.insert(device) } else { devices })
    } else if value != constants::KEY_PRESS {
        step is Updated && redescribed(s, t) && devices_after.to_set() == devices
    } else if key_code == constants::KEY_ESC {
        step is Cancelled && t == s && devices_after.to_set() == devices
    } else if key_code == constants::BTN_LEFT || key_code == constants::BTN_RIGHT {
        step is Ignored && t == s && devices_after.to_set() == devices
    } else {
        &&& redescribed(CaptureState { key_code: Some(key_code), ..s }, t)
        &&& devices_after.to_set() == devices.insert(device)
        &&& step matches CaptureStep::Captured(b) && b@ == (crate::hotkey::HotkeyModel {
            key_code,
            ctrl: s.ctrl,
            shift: s.shift,
            alt: s.alt,
            super_key: s.super_key,
            source_devices: devices_after,
        })
    }
}

/// Capture from input devices: the live state and the devices that took
/// part in the key combination, kept sorted.
#[derive(Debug)]
pub struct EvdevCapture {
    state: CaptureState,
    devices: Vec<String>,
}

impl EvdevCapture {
    #[verifier::type_invariant]
    spec fn sorted_devices(self) -> bool {
        strictly_sorted(string_views(self.devices@))
    }

    /// The live state.
    pub closed spec fn spec_state(&self) -> CaptureState {
        self.state
    }

    /// The devices that took part so far, in order.
    pub closed spec fn spec_devices(&self) -> Seq<Seq<char>> {
        string_views(self.devices@)
    }

    /// A capture with nothing held and no device.
    pub fn new() -> (c: EvdevCapture)
        ensures
            c.spec_state().key_code is None,
            !c.spec_state().ctrl && !c.spec_state().shift && !c.spec_state().alt && !c.spec_state().super_key,
            described(c.spec_state()),
            c.spec_devices() == Seq::<Seq<char>>::empty(),
    {
        let c = EvdevCapture { state: CaptureState::new(), devices: Vec::new() };
        assert(string_views(c.devices@) =~= Seq::<Seq<char>>::empty());
        c
    }

    /// The live state.
    pub fn state(&self) -> (s: &CaptureState)
        ensures
            *s == self.spec_state(),
    {
        &self.state
    }

    /// The devices, sorted, without repetition.
    pub fn devices(&self) -> (d: &Vec<String>)
        ensures
            string_views(d@) == self.spec_devices(),
            strictly_sorted(self.spec_devices()),
    {
        proof { use_type_invariant(self); }
        &self.devices
    }

    /// Add a device to the sorted list.
    fn add_device(&mut self, id: &str)
        ensures
            final(self).spec_state() == old(self).spec_state(),
            final(self).spec_devices().to_set() == old(self).spec_devices().to_set().insert(id@),
    {
        proof { use_type_invariant(&*self); }
        let mut devices: Vec<String> = Vec::new();
        std::mem::swap(&mut devices, &mut self.devices);
        let ghost before = string_views(devices@);
        let mut j: usize = 0;
        while j < devices.len() && !str_le(id, devices[j].as_str())
            invariant
                j <= devices@.len(),
                before == string_views(devices@),
                strictly_sorted(before),
                forall|t: int| 0 <= t < j ==> !lex_le(id@, #[trigger] before[t]),
            decreases devices@.len() - j,
        {
            j = j + 1;
        }
        if j < devices.len() && str_eq(devices[j].as_str(), id) {
            assert(before.to_set() == before.to_set().insert(id@)) by {
                assert(before[j as int] == id@);
                assert(before.contains(id@));
                assert(before.to_set() =~= before.to_set().insert(id@));
            };
        } else {
            devices.insert(j, owned(id));
            proof {
                let after = string_views(devices@);
                assert(after =~= before.insert(j as int, id@));
                assert forall|a: int, b: int| 0 <= a < b < after.len() implies lex_le(#[trigger] after[a], #[trigger] after[b]) && after[a] != after[b] by {
                    if b == j {
                        assert(after[a] == before[a]);
                        lemma_lex_total(id@, before[a]);
                        if lex_le(before[a], id@) && before[a] == id@ {
                            assert(lex_le(id@, before[a]));
                        }
                    } else if a == j {
                        assert(after[b] == before[b - 1]);
                        assert(lex_le(id@, before[j as int]));
                        if b - 1 > j {
                            crate::text::lemma_lex_transitive(id@, before[j as int], before[b - 1]);
                            if id@ == before[b - 1] {
                                lemma_lex_antisymmetric(before[j as int], before[b - 1]);
                            }
                        }
                    } else if b < j {
                        assert(after[a] == before[a] && after[b] == before[b]);
                    } else if a < j {
                        assert(after[a] == before[a] && after[b] == before[b - 1]);
                    } else {
                        assert(after[a] == before[a - 1] && after[b] == before[b - 1]);
                    }
                };
                assert(after.to_set() =~= before.to_set().insert(id@)) by {
                    assert forall|x: Seq<char>| after.to_set().contains(x) <==> before.to_set().insert(id@).contains(x) by {
                        if after.contains(x) {
                            let t = choose|t: int| 0 <= t < after.len() && after[t] == x;
                            if t < j {
                                assert(before[t] == x);
                            } else if t > j {
                                assert(before[t - 1] == x);
                            }
                        }
                        if before.contains(x) {
                            let t = choose|t: int| 0 <= t < before.len() && before[t] == x;
                            if t < j {
                                assert(after[t] == x);
                            } else {
                                assert(after[t + 1] == x);
                            }
                        }
                        if x == id@ {
                            assert(after[j as int] == x);
                        }
                    };
                };
            }
        }
        self.devices = devices;
    }

    /// Handle one event of input device `device_id`, as `evdev_step` says.
    pub fn key_event(&mut self, event_type: u16, key_code: u16, value: i32, device_id: &str) -> (step: CaptureStep)
        ensures
            evdev_step(
                old(self).spec_state(),
                old(self).spec_devices().to_set(),
                event_type,
                key_code,
                value,
                device_id@,
                final(self).spec_state(),
                final(self).spec_devices(),
                step,
            ),
            strictly_sorted(final(self).spec_devices()),
    {
        proof { use_type_invariant(&*self); }
        if event_type != constants::EV_KEY {
            return CaptureStep::Ignored;
        }
        let is_release = value == constants::KEY_RELEASE;
        let is_press = value == constants::KEY_PRESS;
        let mut st = CaptureState::new();
        std::mem::swap(&mut st, &mut self.state);
        let step = match modifier_kind_of(key_code) {
            Some(kind) => {
                st.set_modifier(kind, !is_release);
                if !is_release {
                    self.add_device(device_id);
                }
                st.update_description();
                CaptureStep::Updated
            },
            None => {
                if !is_press {
                    st.update_description();
                    CaptureStep::Updated
                } else if key_code == constants::KEY_ESC {
                    CaptureStep::Cancelled
                } else if key_code == constants::BTN_LEFT || key_code == constants::BTN_RIGHT {
                    CaptureStep::Ignored
                } else {
                    self.add_device(device_id);
                    st.key_code = Some(key_code);
                    st.update_description();
                    proof { use_type_invariant(&*self); }
                    CaptureStep::Captured(HotkeyBinding::with_devices(
                        key_code,
                        st.ctrl,
                        st.shift,
                        st.alt,
                        st.super_key,
                        crate::hotkey::copy_string_vec(&self.devices),
                    ))
                }
            },
        };
        proof { use_type_invariant(&*self); }
        self.state = st;
        step
    }
}

} // verus!

verus! {

/// The kernel key code of an X11 keycode (X11 adds 8).
pub open spec fn evdev_of_x11(keycode: u8) -> u16 {
    if keycode >= 8 { (keycode - 8) as u16 } else { 0 }
}

/// The modifiers that an X11 state mask says are held: Shift, Control,
/// Mod1 (Alt) and Mod4 (Super).
pub open spec fn held_modifiers(s: CaptureState, mask: u16) -> CaptureState {
    CaptureState {
        shift: mask & 1 != 0,
        ctrl: mask & 4 != 0,
        alt: mask & 8 != 0,
        super_key: mask & 64 != 0,
        ..s
    }
}

/// The capture after an X11 key press, and what the caller does: Escape
/// cancels; a modifier shows as held at once; any other key is captured
/// with the modifiers the mask holds (the X server does not tell devices).
pub open spec fn x11_press_step(s: CaptureState, keycode: u8, mask: u16, t: CaptureState, step: CaptureStep) -> bool {
    let code = evdev_of_x11(keycode);
    let held = held_modifiers(s, mask);
    if code == constants::KEY_ESC {
        step is Cancelled && t == s
    } else if modifier_of(code) is Some {
        step is Updated && redescribed(with_modifier(held, modifier_of(code).unwrap(), true), t)
    } else {
        &&& redescribed(CaptureState { key_code: Some(code), ..held }, t)
        &&& step matches CaptureStep::Captured(b) && b@ == (crate::hotkey::HotkeyModel {
            key_code: code,
            ctrl: held.ctrl,
            shift: held.shift,
            alt: held.alt,
            super_key: held.super_key,
            source_devices: Seq::empty(),
        })
    }
}

fn evdev_code_of(keycode: u8) -> (c: u16)
    ensures
        c == evdev_of_x11(keycode),
{
    if keycode >= 8 { (keycode - 8) as u16 } else { 0 }
}

/// Handle an X11 key press with keycode `keycode` and state mask `mask`.
pub fn x11_key_press(state: &mut CaptureState, keycode: u8, mask: u16) -> (step: CaptureStep)
    ensures
        x11_press_step(*old(state), keycode, mask, *final(state), step),
{
    let code = evdev_code_of(keycode);
    if code == constants::KEY_ESC {
        return CaptureStep::Cancelled;
    }
    state.shift = mask & 1 != 0;
    state.ctrl = mask & 4 != 0;
    state.alt = mask & 8 != 0;
    state.super_key = mask & 64 != 0;
    match modifier_kind_of(code) {
        Some(kind) => {
            state.set_modifier(kind, true);
            state.update_description();
            CaptureStep::Updated
        },
        None => {
            state.key_code = Some(code);
            state.update_description();
            let binding = HotkeyBinding::new(code, state.ctrl, state.shift, state.alt, state.super_key);
            assert(string_views(binding.source_devices@) =~= Seq::<Seq<char>>::empty());
            CaptureStep::Captured(binding)
        },
    }
}

/// Handle an X11 key release: a released modifier shows as no longer
/// held while no key is captured.
pub fn x11_key_release(state: &mut CaptureState, keycode: u8) -> (step: CaptureStep)
    ensures
        ({
            let code = evdev_of_x11(keycode);
            let released = match modifier_of(code) {
                Some(kind) => with_modifier(*old(state), kind, false),
                None => *old(state),
            };
            if old(state).key_code is None {
                step is Updated && redescribed(released, *final(state))
            } else {
                step is Ignored && *final(state) == released
            }
        }),
{
    let code = evdev_code_of(keycode);
    if let Some(kind) = modifier_kind_of(code) {
        state.set_modifier(kind, false);
    }
    if state.key_code.is_none() {
        state.update_description();
        CaptureStep::Updated
    } else {
        CaptureStep::Ignored
    }
}

/// An X11 key press reads the held modifiers from the event's state mask
/// bit by bit: Shift from bit 0 (ShiftMask, 1), Control from bit 2 (4),
/// Alt from bit 3 (Mod1Mask, 8) and Super from bit 6 (Mod4Mask, 64); no
/// other bit (Lock 2, Mod2 16, ...) sets a modifier. A pressed modifier key
/// shows as held besides; any other key except Escape is captured with
/// exactly the modifiers of the mask, its key code being the X11 keycode
/// less 8.
pub proof fn lemma_x11_press_reads_mask(s: CaptureState, keycode: u8, mask: u16, t: CaptureState, step: CaptureStep)
    requires
        x11_press_step(s, keycode, mask, t, step),
        keycode >= 8,
        keycode - 8 != 1,
    ensures
        t.shift == (mask % 2 == 1 || keycode - 8 == 42 || keycode - 8 == 54),
        t.ctrl == ((mask / 4) % 2 == 1 || keycode - 8 == 29 || keycode - 8 == 97),
        t.alt == ((mask / 8) % 2 == 1 || keycode - 8 == 56 || keycode - 8 == 100),
        t.super_key == ((mask / 64) % 2 == 1 || keycode - 8 == 125 || keycode - 8 == 126),
        !(keycode - 8 == 29 || keycode - 8 == 97 || keycode - 8 == 42 || keycode - 8 == 54
            || keycode - 8 == 56 || keycode - 8 == 100 || keycode - 8 == 125 || keycode - 8 == 126) ==> {
            &&& step matches CaptureStep::Captured(b) && {
                &&& b.key_code == keycode - 8
                &&& b.shift == (mask % 2 == 1)
                &&& b.ctrl == ((mask / 4) % 2 == 1)
                &&& b.alt == ((mask / 8) % 2 == 1)
                &&& b.super_key == ((mask / 64) % 2 == 1)
            }
            &&& t.key_code == Some((keycode - 8) as u16)
        },
{
    assert((mask & 1 != 0) == (mask % 2 == 1)) by (bit_vector);
    assert((mask & 4 != 0) == ((mask / 4) % 2 == 1)) by (bit_vector);
    assert((mask & 8 != 0) == ((mask / 8) % 2 == 1)) by (bit_vector);
    assert((mask & 64 != 0) == ((mask / 64) % 2 == 1)) by (bit_vector);
    assert(evdev_of_x11(keycode) == keycode - 8);
}

} // verus!
