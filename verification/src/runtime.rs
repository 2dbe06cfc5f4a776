//! Runtime configuration of the preview daemon: the selected profile,
//! the live thumbnail settings, and the display settings derived from them.

use vstd::prelude::*;
use crate::color::{HexColor, Opacity, X11Color, spec_parse_color, channel};
use crate::constants;
use crate::domain::{CharacterSettings, Dimensions, Position, PreviewMode, TextOffset, plain_settings};
use crate::hotkey::{HotkeyBinding, HotkeyModel};
use crate::name_map::{NameMap, Duplicate};
use crate::profile::{
    Config, CustomWindowRule, CustomWindowRuleModel, Profile, rule_views, ProfileModel, first_named, find_profile, copy_opt_preview_mode,
    without_aliases, only_aliases, separate_custom_sources, spec_default_profile,
};
use crate::text::copy_opt_string;
use crate::ipc::DaemonMessage;

verus! {

/// Display settings handed to the renderer.
#[derive(Debug)]
pub struct DisplayConfig {
    pub enabled: bool,
    /// Opacity as an ARGB32 word (alpha in the top byte).
    pub opacity: u32,
    pub active_border_size: u16,
    pub active_border_color: X11Color,
    pub text_offset: TextOffset,
    pub text_color: u32,
    pub hide_when_no_focus: bool,
    pub inactive_border_enabled: bool,
    /// Settings per character / custom source name.
    pub character_settings: NameMap<CharacterSettings>,
    pub inactive_border_color: X11Color,
    pub inactive_border_size: u16,
    pub minimized_overlay_enabled: bool,
}

/// The daemon's runtime configuration.
#[derive(Debug)]
pub struct DaemonConfig {
    pub profile: Profile,
    /// Live positions, sizes and overrides of characters.
    pub character_thumbnails: NameMap<CharacterSettings>,
    /// Live settings of custom sources.
    pub custom_source_thumbnails: NameMap<CharacterSettings>,
    /// Profile-switch hotkeys with their profile names, in profile order; a
    /// later entry for the same binding takes precedence.
    pub profile_hotkeys: Vec<(HotkeyBinding, String)>,
    /// Previews temporarily hidden by hotkey.
    pub runtime_hidden: bool,
}

/// The X11 colour of an ARGB word.
pub open spec fn x11_of(argb: u32) -> X11Color {
    X11Color {
        red: (channel(argb, 2) * 257) as u16,
        green: (channel(argb, 1) * 257) as u16,
        blue: (channel(argb, 0) * 257) as u16,
        alpha: (channel(argb, 3) * 257) as u16,
    }
}

/// The ARGB word of a colour string, or `fallback` when it does not parse.
pub open spec fn color_or(s: Seq<char>, fallback: u32) -> u32 {
    match spec_parse_color(s) {
        Some(v) => v,
        None => fallback,
    }
}

/// Settings `s` with the overrides that rule `r` sets.
pub open spec fn rule_overrides(s: CharacterSettings, r: CustomWindowRuleModel) -> CharacterSettings {
    CharacterSettings {
        override_active_border_color: if r.active_border_color is Some { r.active_border_color } else { s.override_active_border_color },
        override_inactive_border_color: if r.inactive_border_color is Some { r.inactive_border_color } else { s.override_inactive_border_color },
        override_active_border_size: if r.active_border_size is Some { r.active_border_size } else { s.override_active_border_size },
        override_inactive_border_size: if r.inactive_border_size is Some { r.inactive_border_size } else { s.override_inactive_border_size },
        override_text_color: if r.text_color is Some { r.text_color } else { s.override_text_color },
        preview_mode: match r.preview_mode { Some(m) => m, None => s.preview_mode },
        ..s
    }
}

/// The settings a rule gives a source that has none yet.
pub open spec fn rule_settings(r: CustomWindowRuleModel) -> CharacterSettings {
    CharacterSettings {
        x: 0,
        y: 0,
        dimensions: Dimensions { width: r.default_width, height: r.default_height },
        alias: None,
        notes: None,
        override_active_border_color: r.active_border_color,
        override_inactive_border_color: r.inactive_border_color,
        override_active_border_size: r.active_border_size,
        override_inactive_border_size: r.inactive_border_size,
        override_text_color: r.text_color,
        preview_mode: match r.preview_mode { Some(m) => m, None => PreviewMode::Live },
    }
}

/// Apply the rules in order: each rule's overrides go onto the entry of
/// its alias, which is created from the rule when missing.
pub open spec fn apply_rules(m: Map<Seq<char>, CharacterSettings>, rules: Seq<CustomWindowRuleModel>) -> Map<Seq<char>, CharacterSettings>
    decreases rules.len(),
{
    if rules.len() == 0 {
        m
    } else {
        let prev = apply_rules(m, rules.drop_last());
        let r = rules.last();
        if prev.contains_key(r.alias@) {
            prev.insert(r.alias@, rule_overrides(prev[r.alias@], r))
        } else {
            prev.insert(r.alias@, rule_settings(r))
        }
    }
}

/// The ARGB word of an opacity percentage (clamped to 100): alpha is the
/// percentage scaled to 0-255, rounded down.
pub open spec fn opacity_word(percent: u8) -> u32 {
    (((if percent <= 100 { percent } else { 100 }) * 255 / 100) * 16777216) as u32
}

/// The display configuration a profile gives.
pub open spec fn spec_display(p: ProfileModel) -> (bool, u32, u16, X11Color, TextOffset, u32, bool, bool, X11Color, u16, bool) {
    (
        p.thumbnail_enabled,
        opacity_word(p.thumbnail_opacity),
        if p.thumbnail_active_border { p.thumbnail_active_border_size } else { 0 },
        x11_of(color_or(p.thumbnail_active_border_color, 0xFFFF0000)),
        TextOffset { x: p.thumbnail_text_x, y: p.thumbnail_text_y },
        color_or(p.thumbnail_text_color, 0xFFFFFFFF),
        p.thumbnail_hide_not_focused,
        p.thumbnail_inactive_border,
        x11_of(color_or(p.thumbnail_inactive_border_color, 0)),
        if p.thumbnail_inactive_border { p.thumbnail_inactive_border_size } else { 0 },
        p.client_minimize_show_overlay,
    )
}

pub open spec fn display_tuple(d: DisplayConfig) -> (bool, u32, u16, X11Color, TextOffset, u32, bool, bool, X11Color, u16, bool) {
    (
        d.enabled,
        d.opacity,
        d.active_border_size,
        d.active_border_color,
        d.text_offset,
        d.text_color,
        d.hide_when_no_focus,
        d.inactive_border_enabled,
        d.inactive_border_color,
        d.inactive_border_size,
        d.minimized_overlay_enabled,
    )
}

fn x11_color_or(s: &String, fallback: u32) -> (c: X11Color)
    ensures
        c == x11_of(color_or(s@, fallback)),
{
    match HexColor::parse(s.as_str()) {
        Some(c) => c.to_x11_color(),
        None => HexColor::from_argb32(fallback).to_x11_color(),
    }
}

fn argb_or(s: &String, fallback: u32) -> (v: u32)
    ensures
        v == color_or(s@, fallback),
{
    match HexColor::parse(s.as_str()) {
        Some(c) => c.argb32(),
        None => fallback,
    }
}

/// Overwrite with `other`'s entries (`HashMap::extend`).
fn extend_settings(m: &mut NameMap<CharacterSettings>, other: &NameMap<CharacterSettings>)
    ensures
        final(m)@ == old(m)@.union_prefer_right(other@),
{
    let ghost orig = m@;
    let entries = other.entries();
    proof { other.lemma_entries(); }
    let mut j: usize = 0;
    while j < entries.len()
        invariant
            j <= entries@.len(),
            entries@ == other.spec_entries(),
            crate::name_map::keys_distinct(entries@),
            other@ == crate::name_map::entries_map(entries@),
            m@ == orig.union_prefer_right(crate::name_map::entries_map(entries@.subrange(0, j as int))),
        decreases entries@.len() - j,
    {
        let ghost pre = entries@.subrange(0, j as int);
        let ghost next = entries@.subrange(0, j + 1);
        proof {
            crate::name_map::lemma_entry_in_map(entries@, j as int);
            lemma_prefix_distinct(entries@, j + 1);
            lemma_prefix_distinct(entries@, j as int);
            crate::name_map::lemma_entry_in_map(next, j as int);
            assert(next[j as int] == entries@[j as int]);
            assert forall|q: Seq<char>| #[trigger] crate::name_map::has_key(next, q) == (crate::name_map::has_key(pre, q) || q == entries@[j as int].0@) by {
                if crate::name_map::has_key(pre, q) {
                    let w = crate::name_map::key_index(pre, q);
                    assert(next[w] == pre[w]);
                }
                if crate::name_map::has_key(next, q) && q != entries@[j as int].0@ {
                    let w = crate::name_map::key_index(next, q);
                    assert(w != j);
                    assert(pre[w] == next[w]);
                }
            };
            assert forall|q: Seq<char>| crate::name_map::has_key(pre, q) && q != entries@[j as int].0@
                implies crate::name_map::entries_map(next)[q] == crate::name_map::entries_map(pre)[q] by {
                let w = crate::name_map::key_index(pre, q);
                crate::name_map::lemma_entry_in_map(pre, w);
                assert(next[w] == pre[w]);
                crate::name_map::lemma_entry_in_map(next, w);
            };
        }
        m.insert(entries[j].0.clone(), entries[j].1.copy());
        j = j + 1;
        proof {
            assert(m@ =~= orig.union_prefer_right(crate::name_map::entries_map(next)));
        }
    }
    proof {
        assert(entries@.subrange(0, entries@.len() as int) =~= entries@);
        assert(m@ =~= orig.union_prefer_right(other@));
    }
}

proof fn lemma_prefix_distinct<V>(entries: Seq<(String, V)>, j: int)
    requires
        crate::name_map::keys_distinct(entries),
        0 <= j <= entries.len(),
    ensures
        crate::name_map::keys_distinct(entries.subrange(0, j)),
{
    let p = entries.subrange(0, j);
    assert forall|a: int, b: int| 0 <= a < p.len() && 0 <= b < p.len() && a != b
        implies #[trigger] p[a].0@ != #[trigger] p[b].0@ by {
        assert(p[a] == entries[a]);
        assert(p[b] == entries[b]);
    };
}

fn copy_rule_overrides(s: &CharacterSettings, r: &CustomWindowRule) -> (o: CharacterSettings)
    ensures
        o == rule_overrides(*s, r@),
{
    let mut o = s.copy();
    if r.active_border_color.is_some() {
        o.override_active_border_color = copy_opt_string(&r.active_border_color);
    }
    if r.inactive_border_color.is_some() {
        o.override_inactive_border_color = copy_opt_string(&r.inactive_border_color);
    }
    if r.active_border_size.is_some() {
        o.override_active_border_size = r.active_border_size;
    }
    if r.inactive_border_size.is_some() {
        o.override_inactive_border_size = r.inactive_border_size;
    }
    if r.text_color.is_some() {
        o.override_text_color = copy_opt_string(&r.text_color);
    }
    match &r.preview_mode {
        Some(m) => {
            o.preview_mode = m.copy();
        },
        None => {},
    }
    o
}

fn settings_from_rule(r: &CustomWindowRule) -> (s: CharacterSettings)
    ensures
        s == rule_settings(r@),
{
    CharacterSettings {
        x: 0,
        y: 0,
        dimensions: Dimensions::new(r.default_width, r.default_height),
        alias: None,
        notes: None,
        override_active_border_color: copy_opt_string(&r.active_border_color),
        override_inactive_border_color: copy_opt_string(&r.inactive_border_color),
        override_active_border_size: r.active_border_size,
        override_inactive_border_size: r.inactive_border_size,
        override_text_color: copy_opt_string(&r.text_color),
        preview_mode: match &r.preview_mode {
            Some(m) => m.copy(),
            None => PreviewMode::Live,
        },
    }
}

/// The name of the last profile-switch entry for binding `b`, if any.
pub open spec fn last_profile_for(entries: Seq<(HotkeyBinding, String)>, b: HotkeyModel) -> Option<Seq<char>>
    decreases entries.len(),
{
    if entries.len() == 0 {
        None
    } else if entries.last().0@ == b {
        Some(entries.last().1@)
    } else {
        last_profile_for(entries.drop_last(), b)
    }
}

/// The profile-switch hotkeys of the profiles, in order.
pub open spec fn switch_hotkeys(profiles: Seq<Profile>) -> Seq<(HotkeyModel, Seq<char>)>
    decreases profiles.len(),
{
    if profiles.len() == 0 {
        Seq::empty()
    } else {
        let prev = switch_hotkeys(profiles.drop_last());
        match profiles.last().hotkey_profile_switch {
            Some(b) => prev.push((b@, profiles.last().profile_name@)),
            None => prev,
        }
    }
}

pub open spec fn entry_views(entries: Seq<(HotkeyBinding, String)>) -> Seq<(HotkeyModel, Seq<char>)> {
    entries.map_values(|e: (HotkeyBinding, String)| (e.0@, e.1@))
}

fn same_binding(a: &HotkeyBinding, b: &HotkeyBinding) -> (r: bool)
    ensures
        r == (a@ == b@),
{
    if a.key_code != b.key_code || a.ctrl != b.ctrl || a.shift != b.shift || a.alt != b.alt || a.super_key != b.super_key {
        return false;
    }
    let n = a.source_devices.len();
    if n != b.source_devices.len() {
        assert(a@.source_devices.len() != b@.source_devices.len());
        return false;
    }
    let mut i: usize = 0;
    while i < n
        invariant
            i <= n,
            n == a.source_devices@.len(),
            n == b.source_devices@.len(),
            forall|j: int| 0 <= j < i ==> a.source_devices@[j]@ == b.source_devices@[j]@,
        decreases n - i,
    {
        if !crate::text::str_eq(a.source_devices[i].as_str(), b.source_devices[i].as_str()) {
            assert(a@.source_devices[i as int] != b@.source_devices[i as int]);
            return false;
        }
        i = i + 1;
    }
    assert(a@.source_devices =~= b@.source_devices);
    true
}

/// Settings `s` moved to `(x, y)` with size `width` x `height`.
pub open spec fn with_geometry(s: CharacterSettings, x: i16, y: i16, width: u16, height: u16) -> CharacterSettings {
    CharacterSettings { x, y, dimensions: Dimensions { width, height }, ..s }
}

/// The departing character's entry records where its window is now; an
/// entry is created for it when it has none. An empty name records nothing.
pub open spec fn record_departure(
    m: Map<Seq<char>, CharacterSettings>,
    name: Seq<char>,
    pos: Position,
    width: u16,
    height: u16,
) -> Map<Seq<char>, CharacterSettings> {
    if name.len() == 0 {
        m
    } else {
        let base = if m.contains_key(name) { m[name] } else { plain_settings(pos.x, pos.y, width, height) };
        m.insert(name, with_geometry(base, pos.x, pos.y, width, height))
    }
}

/// The saved settings of character `name` in the profile named `profile`
/// of the configuration on disk (the first profile of that name).
pub open spec fn disk_entry(disk: Option<&Config>, profile: Seq<char>, name: Seq<char>) -> Option<CharacterSettings> {
    match disk {
        None => None,
        Some(c) => match first_named(c.profiles@, profile) {
            None => None,
            Some(i) => {
                let t = c.profiles@[i].character_thumbnails@;
                if t.contains_key(name) { Some(t[name]) } else { None }
            },
        },
    }
}

/// Memory keeps the window geometry, disk supplies everything else.
pub open spec fn with_disk_overrides(mem: CharacterSettings, disk: CharacterSettings) -> CharacterSettings {
    CharacterSettings { x: mem.x, y: mem.y, dimensions: mem.dimensions, ..disk }
}

/// The arriving character's entry takes its user settings from disk,
/// or the disk entry whole when memory has none.
pub open spec fn refresh_arrival(
    m: Map<Seq<char>, CharacterSettings>,
    name: Seq<char>,
    disk: Option<CharacterSettings>,
) -> Map<Seq<char>, CharacterSettings> {
    if name.len() == 0 {
        m
    } else {
        match disk {
            None => m,
            Some(d) => if m.contains_key(name) {
                m.insert(name, with_disk_overrides(m[name], d))
            } else {
                m.insert(name, d)
            },
        }
    }
}

/// The character thumbnails after a character change.
pub open spec fn after_change(
    m: Map<Seq<char>, CharacterSettings>,
    profile: Seq<char>,
    old_name: Seq<char>,
    new_name: Seq<char>,
    pos: Position,
    width: u16,
    height: u16,
    disk: Option<&Config>,
) -> Map<Seq<char>, CharacterSettings> {
    refresh_arrival(record_departure(m, old_name, pos, width, height), new_name, disk_entry(disk, profile, new_name))
}

/// A character change records where the departing character's window is:
/// for a non-empty departing name, its entry afterwards has exactly the
/// given current position and size, whether or not it had one before (and
/// whatever the arriving name is); when it had one and another character
/// arrives, its other settings are kept as they were.
pub proof fn lemma_change_records_departure(
    m: Map<Seq<char>, CharacterSettings>,
    profile: Seq<char>,
    old_name: Seq<char>,
    new_name: Seq<char>,
    pos: Position,
    width: u16,
    height: u16,
    disk: Option<&Config>,
)
    requires
        old_name.len() > 0,
    ensures
        ({
            let after = after_change(m, profile, old_name, new_name, pos, width, height, disk);
            &&& after.contains_key(old_name)
            &&& after[old_name].x == pos.x
            &&& after[old_name].y == pos.y
            &&& after[old_name].dimensions == (Dimensions { width, height })
            &&& (m.contains_key(old_name) && new_name != old_name) ==> after[old_name] == (CharacterSettings {
                x: pos.x,
                y: pos.y,
                dimensions: Dimensions { width, height },
                ..m[old_name]
            })
        }),
{
}

/// A character change never gives an empty name an entry: empty names are
/// skipped on both sides.
pub proof fn lemma_change_keeps_empty_name_out(
    m: Map<Seq<char>, CharacterSettings>,
    profile: Seq<char>,
    old_name: Seq<char>,
    new_name: Seq<char>,
    pos: Position,
    width: u16,
    height: u16,
    disk: Option<&Config>,
)
    requires
        !m.contains_key(Seq::empty()),
    ensures
        !after_change(m, profile, old_name, new_name, pos, width, height, disk).contains_key(Seq::empty()),
{
    if old_name.len() == 0 {
        assert(old_name =~= Seq::<char>::empty());
    }
    if new_name.len() == 0 {
        assert(new_name =~= Seq::<char>::empty());
    }
}

fn disk_refreshed(mem: &CharacterSettings, disk: &CharacterSettings) -> (r: CharacterSettings)
    ensures
        r == with_disk_overrides(*mem, *disk),
{
    let d = disk.copy();
    CharacterSettings {
        x: mem.x,
        y: mem.y,
        dimensions: mem.dimensions,
        alias: d.alias,
        notes: d.notes,
        override_active_border_color: d.override_active_border_color,
        override_inactive_border_color: d.override_inactive_border_color,
        override_active_border_size: d.override_active_border_size,
        override_inactive_border_size: d.override_inactive_border_size,
        override_text_color: d.override_text_color,
        preview_mode: d.preview_mode,
    }
}

/// Whether `m` reports `name` placed at `s`'s position and size.
pub open spec fn reports_position(m: DaemonMessage, name: Seq<char>, s: CharacterSettings, is_custom: bool) -> bool {
    m matches DaemonMessage::PositionChanged { name: n, x, y, width, height, is_custom: c }
        && n@ == name && x == s.x && y == s.y && width == s.dimensions.width && height == s.dimensions.height
        && c == is_custom
}

/// Whether `m` reports `name` found.
pub open spec fn reports_detected(m: DaemonMessage, name: Seq<char>, is_custom: bool) -> bool {
    m matches DaemonMessage::CharacterDetected { name: n, is_custom: c } && n@ == name && c == is_custom
}

/// Where the thumbnail of a character without saved settings goes after a
/// swap: where the client's thumbnail already is, or (when positions are
/// not kept on swap) next to the client window.
pub open spec fn swap_position(preserve: bool, current: Position, source: Position) -> (i16, i16) {
    if preserve {
        (current.x, current.y)
    } else {
        ((source.x + constants::DEFAULT_SPAWN_OFFSET) as i16, (source.y + constants::DEFAULT_SPAWN_OFFSET) as i16)
    }
}

/// Settings for a character that arrived in a client and has none saved:
/// at `swap_position`, with the thumbnail's size.
pub fn new_character_settings(
    preserve_position: bool,
    current: Position,
    source: Position,
    width: u16,
    height: u16,
) -> (s: CharacterSettings)
    requires
        !preserve_position ==> source.x + constants::DEFAULT_SPAWN_OFFSET <= i16::MAX,
        !preserve_position ==> source.y + constants::DEFAULT_SPAWN_OFFSET <= i16::MAX,
    ensures
        s == plain_settings(swap_position(preserve_position, current, source).0,
            swap_position(preserve_position, current, source).1, width, height),
{
    if preserve_position {
        CharacterSettings::new(current.x, current.y, width, height)
    } else {
        CharacterSettings::new(
            source.x + constants::DEFAULT_SPAWN_OFFSET,
            source.y + constants::DEFAULT_SPAWN_OFFSET,
            width,
            height,
        )
    }
}

fn position_message(name: &str, s: &CharacterSettings, is_custom: bool) -> (m: DaemonMessage)
    ensures
        reports_position(m, name@, *s, is_custom),
{
    DaemonMessage::PositionChanged {
        name: crate::text::owned(name),
        x: s.x,
        y: s.y,
        width: s.dimensions.width,
        height: s.dimensions.height,
        is_custom,
    }
}

fn detected_message(name: &str, is_custom: bool) -> (m: DaemonMessage)
    ensures
        reports_detected(m, name@, is_custom),
{
    DaemonMessage::CharacterDetected { name: crate::text::owned(name), is_custom }
}

impl DaemonConfig {
    /// Default thumbnail size for a new window: the profile's default
    /// width and height (the screen size is not consulted).
    pub fn default_thumbnail_size(&self, _screen_width: u16, _screen_height: u16) -> (r: (u16, u16))
        ensures
            r == (self.profile.thumbnail_default_width, self.profile.thumbnail_default_height),
    {
        (self.profile.thumbnail_default_width, self.profile.thumbnail_default_height)
    }

    /// A client's character changed (login, logout or switch). The
    /// departing character's entry records the window's current position
    /// and size; the arriving character's entry takes its user settings
    /// from `disk_config` (the configuration as last saved, `None` when it
    /// could not be read) while keeping the position held in memory. Empty
    /// names are skipped. Returns the arriving character's settings, if any.
    pub fn handle_character_change(
        &mut self,
        old_name: &str,
        new_name: &str,
        current_position: Position,
        current_width: u16,
        current_height: u16,
        disk_config: Option<&Config>,
    ) -> (r: Option<CharacterSettings>)
        ensures
            final(self).character_thumbnails@ == after_change(
                old(self).character_thumbnails@,
                old(self).profile.profile_name@,
                old_name@,
                new_name@,
                current_position,
                current_width,
                current_height,
                disk_config,
            ),
            r == (if new_name@.len() > 0 && final(self).character_thumbnails@.contains_key(new_name@) {
                Some(final(self).character_thumbnails@[new_name@])
            } else {
                None::<CharacterSettings>
            }),
            final(self).profile == old(self).profile,
            final(self).custom_source_thumbnails == old(self).custom_source_thumbnails,
            final(self).profile_hotkeys == old(self).profile_hotkeys,
            final(self).runtime_hidden == old(self).runtime_hidden,
    {
        if old_name.unicode_len() > 0 {
            let mut settings = match self.character_thumbnails.get(old_name) {
                Some(s) => s.copy(),
                None => CharacterSettings::new(current_position.x, current_position.y, current_width, current_height),
            };
            settings.x = current_position.x;
            settings.y = current_position.y;
            settings.dimensions = Dimensions::new(current_width, current_height);
            self.character_thumbnails.insert(crate::text::owned(old_name), settings);
        }
        let ghost m1 = self.character_thumbnails@;
        if new_name.unicode_len() > 0 {
            if let Some(disk) = disk_config {
                if let Some(i) = find_profile(&disk.profiles, self.profile.profile_name.as_str()) {
                    if let Some(ds) = disk.profiles[i].character_thumbnails.get(new_name) {
                        match self.character_thumbnails.find(new_name) {
                            Some(k) => {
                                let updated = disk_refreshed(self.character_thumbnails.value_at(k), ds);
                                self.character_thumbnails.set_value_at(k, updated);
                            },
                            None => {
                                self.character_thumbnails.insert(crate::text::owned(new_name), ds.copy());
                            },
                        }
                    }
                }
            }
        }
        if new_name.unicode_len() > 0 {
            match self.character_thumbnails.get(new_name) {
                Some(s) => Some(s.copy()),
                None => None,
            }
        } else {
            None
        }
    }


    /// A client window was identified and its thumbnail placed at `(x, y)`
    /// with size `width` x `height`. A client's character keeps its entry's
    /// settings with the new geometry (an entry is created when missing);
    /// a custom source's entry is replaced by plain settings there. The
    /// manager is told the position, and also the detection when the
    /// window is new. Nothing happens for an unnamed window.
    pub fn record_detected_geometry(
        &mut self,
        name: &str,
        is_eve: bool,
        x: i16,
        y: i16,
        width: u16,
        height: u16,
        is_new_window: bool,
    ) -> (msgs: Vec<DaemonMessage>)
        ensures
            final(self).profile == old(self).profile,
            final(self).profile_hotkeys == old(self).profile_hotkeys,
            final(self).runtime_hidden == old(self).runtime_hidden,
            name@.len() == 0 ==> msgs@.len() == 0 && final(self).character_thumbnails == old(self).character_thumbnails
                && final(self).custom_source_thumbnails == old(self).custom_source_thumbnails,
            name@.len() > 0 && is_eve ==> {
                &&& final(self).character_thumbnails@ == old(self).character_thumbnails@.insert(name@,
                    if old(self).character_thumbnails@.contains_key(name@) {
                        with_geometry(old(self).character_thumbnails@[name@], x, y, width, height)
                    } else {
                        plain_settings(x, y, width, height)
                    })
                &&& final(self).custom_source_thumbnails == old(self).custom_source_thumbnails
            },
            name@.len() > 0 && !is_eve ==> {
                &&& final(self).custom_source_thumbnails@ == old(self).custom_source_thumbnails@.insert(name@,
                    plain_settings(x, y, width, height))
                &&& final(self).character_thumbnails == old(self).character_thumbnails
            },
            name@.len() > 0 ==> {
                &&& msgs@.len() == (if is_new_window { 2int } else { 1int })
                &&& reports_position(msgs@[0], name@, plain_settings(x, y, width, height), !is_eve)
                &&& is_new_window ==> reports_detected(msgs@[1], name@, !is_eve)
            },
    {
        let mut msgs: Vec<DaemonMessage> = Vec::new();
        if name.unicode_len() == 0 {
            return msgs;
        }
        let settings = CharacterSettings::new(x, y, width, height);
        if is_eve {
            let entry = match self.character_thumbnails.get(name) {
                Some(existing) => {
                    let mut e = existing.copy();
                    e.x = x;
                    e.y = y;
                    e.dimensions = Dimensions::new(width, height);
                    e
                },
                None => settings.copy(),
            };
            self.character_thumbnails.insert(crate::text::owned(name), entry);
        } else {
            self.custom_source_thumbnails.insert(crate::text::owned(name), settings.copy());
        }
        msgs.push(position_message(name, &settings, !is_eve));
        if is_new_window {
            msgs.push(detected_message(name, !is_eve));
        }
        msgs
    }

    /// A drag ended with `name`'s thumbnail at `(x, y)`: a named character's
    /// entry becomes plain settings there with the thumbnail's size, and the
    /// manager is told the position.
    pub fn record_dragged_position(&mut self, name: &str, x: i16, y: i16, width: u16, height: u16) -> (m: DaemonMessage)
        ensures
            name@.len() > 0 ==> final(self).character_thumbnails@
                == old(self).character_thumbnails@.insert(name@, plain_settings(x, y, width, height)),
            name@.len() == 0 ==> final(self).character_thumbnails == old(self).character_thumbnails,
            final(self).profile == old(self).profile,
            final(self).custom_source_thumbnails == old(self).custom_source_thumbnails,
            final(self).profile_hotkeys == old(self).profile_hotkeys,
            final(self).runtime_hidden == old(self).runtime_hidden,
            reports_position(m, name@, plain_settings(x, y, width, height), false),
    {
        let settings = CharacterSettings::new(x, y, width, height);
        let m = position_message(name, &settings, false);
        if name.unicode_len() > 0 {
            self.character_thumbnails.insert(crate::text::owned(name), settings);
        }
        m
    }

    /// A character without saved settings arrived in a client: record its
    /// settings and tell the manager it was found and where it is.
    pub fn adopt_new_character(&mut self, name: &str, settings: CharacterSettings) -> (msgs: Vec<DaemonMessage>)
        ensures
            final(self).character_thumbnails@ == old(self).character_thumbnails@.insert(name@, settings),
            final(self).profile == old(self).profile,
            final(self).custom_source_thumbnails == old(self).custom_source_thumbnails,
            final(self).profile_hotkeys == old(self).profile_hotkeys,
            final(self).runtime_hidden == old(self).runtime_hidden,
            msgs@.len() == 2,
            reports_detected(msgs@[0], name@, false),
            reports_position(msgs@[1], name@, settings, false),
    {
        let detected = detected_message(name, false);
        let moved = position_message(name, &settings, false);
        self.character_thumbnails.insert(crate::text::owned(name), settings);
        vec![detected, moved]
    }

    /// Display settings for the renderer. Colours that do not parse fall
    /// back to opaque red (active border), opaque white (text) and
    /// transparent (inactive border); a disabled border has size 0. The
    /// per-name settings are the character thumbnails, overwritten by the
    /// custom sources, then the custom window rules applied in order.
    pub fn build_display_config(&self) -> (d: DisplayConfig)
        ensures
            display_tuple(d) == spec_display(self.profile@),
            d.character_settings@ == apply_rules(
                self.profile@.character_thumbnails.union_prefer_right(self.profile@.custom_source_thumbnails),
                self.profile@.custom_windows,
            ),
    {
        let p = &self.profile;
        let active_border_color = x11_color_or(&p.thumbnail_active_border_color, 0xFFFF0000);
        let text_color = argb_or(&p.thumbnail_text_color, 0xFFFFFFFF);
        let inactive_border_color = x11_color_or(&p.thumbnail_inactive_border_color, 0);
        let opacity = Opacity::from_percent(p.thumbnail_opacity).to_argb32();
        assert(p.thumbnail_opacity <= 100 || p.thumbnail_opacity > 100);
        let mut character_settings = p.character_thumbnails.duplicate();
        extend_settings(&mut character_settings, &p.custom_source_thumbnails);
        let ghost base = character_settings@;
        let rules = &p.custom_windows;
        let ghost models = rule_views(rules@);
        let mut i: usize = 0;
        while i < rules.len()
            invariant
                i <= rules@.len(),
                models == rule_views(rules@),
                character_settings@ == apply_rules(base, models.subrange(0, i as int)),
            decreases rules@.len() - i,
        {
            let r = &rules[i];
            proof {
                let next = models.subrange(0, i + 1);
                assert(next.drop_last() =~= models.subrange(0, i as int));
                assert(next.last() == r@);
            }
            match character_settings.find(r.alias.as_str()) {
                Some(k) => {
                    let updated = copy_rule_overrides(character_settings.value_at(k), r);
                    character_settings.set_value_at(k, updated);
                },
                None => {
                    character_settings.insert(r.alias.clone(), settings_from_rule(r));
                },
            }
            i = i + 1;
        }
        assert(models.subrange(0, rules@.len() as int) =~= models);
        DisplayConfig {
            enabled: p.thumbnail_enabled,
            opacity,
            active_border_size: if p.thumbnail_active_border { p.thumbnail_active_border_size } else { 0 },
            active_border_color,
            text_offset: TextOffset::from_border_edge(p.thumbnail_text_x, p.thumbnail_text_y),
            text_color,
            hide_when_no_focus: p.thumbnail_hide_not_focused,
            inactive_border_enabled: p.thumbnail_inactive_border,
            inactive_border_color,
            inactive_border_size: if p.thumbnail_inactive_border { p.thumbnail_inactive_border_size } else { 0 },
            minimized_overlay_enabled: p.client_minimize_show_overlay,
            character_settings,
        }
    }

    /// The profile a profile-switch hotkey selects (the last profile
    /// configured with that binding).
    pub fn profile_for_hotkey(&self, binding: &HotkeyBinding) -> (r: Option<&String>)
        ensures
            r matches Some(n) ==> last_profile_for(self.profile_hotkeys@, binding@) == Some(n@),
            r is None ==> last_profile_for(self.profile_hotkeys@, binding@) is None,
    {
        let mut i = self.profile_hotkeys.len();
        assert(self.profile_hotkeys@.subrange(0, i as int) =~= self.profile_hotkeys@);
        while i > 0
            invariant
                i <= self.profile_hotkeys@.len(),
                last_profile_for(self.profile_hotkeys@, binding@) == last_profile_for(self.profile_hotkeys@.subrange(0, i as int), binding@),
            decreases i,
        {
            let ghost pre = self.profile_hotkeys@.subrange(0, i as int);
            assert(pre.drop_last() =~= self.profile_hotkeys@.subrange(0, i - 1));
            assert(pre.last() == self.profile_hotkeys@[i - 1]);
            if same_binding(&self.profile_hotkeys[i - 1].0, binding) {
                return Some(&self.profile_hotkeys[i - 1].1);
            }
            i = i - 1;
        }
        None
    }

    /// The runtime configuration for the selected profile of `config` (the
    /// default profile when none is selected): its character thumbnails
    /// split into characters and custom sources by the profile's rules, and
    /// every profile's switch hotkey.
    pub fn from_config(config: &Config) -> (d: DaemonConfig)
        ensures
            d.profile@ == (match first_named(config.profiles@, config.global.selected_profile@) {
                Some(i) => config.profiles@[i]@,
                None => spec_default_profile(constants::PROFILE_NAME@, constants::PROFILE_DESCRIPTION@, Seq::empty()),
            }),
            d.character_thumbnails@ == without_aliases(d.profile@.character_thumbnails, d.profile@.custom_windows),
            d.custom_source_thumbnails@ == only_aliases(d.profile@.character_thumbnails, d.profile@.custom_windows),
            entry_views(d.profile_hotkeys@) == switch_hotkeys(config.profiles@),
            !d.runtime_hidden,
    {
        let profile = match config.get_active_profile() {
            Some(p) => p.duplicate(),
            None => Profile::default(),
        };
        let mut character_thumbnails = profile.character_thumbnails.duplicate();
        let mut custom_source_thumbnails: NameMap<CharacterSettings> = NameMap::new();
        separate_custom_sources(&mut character_thumbnails, &mut custom_source_thumbnails, &profile.custom_windows);
        assert(custom_source_thumbnails@ =~= only_aliases(profile@.character_thumbnails, profile@.custom_windows));
        let mut profile_hotkeys: Vec<(HotkeyBinding, String)> = Vec::new();
        let mut i: usize = 0;
        while i < config.profiles.len()
            invariant
                i <= config.profiles@.len(),
                entry_views(profile_hotkeys@) == switch_hotkeys(config.profiles@.subrange(0, i as int)),
            decreases config.profiles@.len() - i,
        {
            let p = &config.profiles[i];
            proof {
                let next = config.profiles@.subrange(0, i + 1);
                assert(next.drop_last() =~= config.profiles@.subrange(0, i as int));
                assert(next.last() == *p);
            }
            match &p.hotkey_profile_switch {
                Some(b) => {
                    profile_hotkeys.push((b.duplicate(), p.profile_name.clone()));
                    assert(entry_views(profile_hotkeys@) =~= switch_hotkeys(config.profiles@.subrange(0, i + 1)));
                },
                None => {
                    assert(entry_views(profile_hotkeys@) =~= switch_hotkeys(config.profiles@.subrange(0, i + 1)));
                },
            }
            i = i + 1;
        }
        assert(config.profiles@.subrange(0, config.profiles@.len() as int) =~= config.profiles@);
        DaemonConfig {
            profile,
            character_thumbnails,
            custom_source_thumbnails,
            profile_hotkeys,
            runtime_hidden: false,
        }
    }
}

} // verus!
