//! Profile-based configuration: each profile holds visual settings,
//! hotkeys, cycle groups and per-character thumbnail settings.

use vstd::prelude::*;
use crate::constants;
use crate::domain::{CharacterSettings, PreviewMode};
use crate::hotkey::{HotkeyBinding, HotkeyModel, string_views, copy_string_vec};
use crate::name_map::{NameMap, Duplicate};
use crate::text::{owned, copy_opt_string, str_eq};

verus! {

/// The view of an optional binding.
pub open spec fn opt_hotkey(o: Option<HotkeyBinding>) -> Option<HotkeyModel> {
    match o {
        Some(b) => Some(b@),
        None => None,
    }
}

pub fn copy_opt_hotkey(o: &Option<HotkeyBinding>) -> (r: Option<HotkeyBinding>)
    ensures
        opt_hotkey(r) == opt_hotkey(*o),
{
    match o {
        Some(b) => Some(b.duplicate()),
        None => None,
    }
}

/// A named group of characters cycled through with its own hotkeys.
#[derive(Debug)]
pub struct CycleGroup {
    pub name: String,
    pub characters: Vec<String>,
    pub hotkey_forward: Option<HotkeyBinding>,
    pub hotkey_backward: Option<HotkeyBinding>,
}

/// The mathematical value of a cycle group.
pub struct CycleGroupModel {
    pub name: Seq<char>,
    pub characters: Seq<Seq<char>>,
    pub hotkey_forward: Option<HotkeyModel>,
    pub hotkey_backward: Option<HotkeyModel>,
}

impl View for CycleGroup {
    type V = CycleGroupModel;

    open spec fn view(&self) -> CycleGroupModel {
        CycleGroupModel {
            name: self.name@,
            characters: string_views(self.characters@),
            hotkey_forward: opt_hotkey(self.hotkey_forward),
            hotkey_backward: opt_hotkey(self.hotkey_backward),
        }
    }
}

impl Duplicate for CycleGroup {
    fn duplicate(&self) -> (r: CycleGroup) {
        CycleGroup {
            name: self.name.clone(),
            characters: copy_string_vec(&self.characters),
            hotkey_forward: copy_opt_hotkey(&self.hotkey_forward),
            hotkey_backward: copy_opt_hotkey(&self.hotkey_backward),
        }
    }
}

impl CycleGroup {
    /// The group named "Default", empty and without hotkeys.
    pub fn default_group() -> (g: CycleGroup)
        ensures
            g@ == (CycleGroupModel {
                name: "Default"@,
                characters: Seq::empty(),
                hotkey_forward: None,
                hotkey_backward: None,
            }),
    {
        let g = CycleGroup {
            name: owned("Default"),
            characters: Vec::new(),
            hotkey_forward: None,
            hotkey_backward: None,
        };
        assert(string_views(g.characters@) =~= Seq::<Seq<char>>::empty());
        g
    }
}

/// Rule that identifies an arbitrary application window and names it.
#[derive(Debug, Clone, PartialEq, Eq)]
pub struct CustomWindowRule {
    /// Pattern for the window title.
    pub title_pattern: Option<String>,
    /// Pattern for the window class / process.
    pub class_pattern: Option<String>,
    /// The identifier shown as its "character name".
    pub alias: String,
    pub default_width: u16,
    pub default_height: u16,
    /// Only preview the first matching window.
    pub limit: bool,
    pub active_border_color: Option<String>,
    pub inactive_border_color: Option<String>,
    pub active_border_size: Option<u16>,
    pub inactive_border_size: Option<u16>,
    pub text_color: Option<String>,
    pub text_size: Option<u16>,
    pub text_x: Option<i16>,
    pub text_y: Option<i16>,
    pub preview_mode: Option<PreviewMode>,
    /// Hotkey that activates the source's window.
    pub hotkey: Option<HotkeyBinding>,
}

/// The mathematical value of a custom window rule.
pub struct CustomWindowRuleModel {
    pub title_pattern: Option<String>,
    pub class_pattern: Option<String>,
    pub alias: String,
    pub default_width: u16,
    pub default_height: u16,
    pub limit: bool,
    pub active_border_color: Option<String>,
    pub inactive_border_color: Option<String>,
    pub active_border_size: Option<u16>,
    pub inactive_border_size: Option<u16>,
    pub text_color: Option<String>,
    pub text_size: Option<u16>,
    pub text_x: Option<i16>,
    pub text_y: Option<i16>,
    pub preview_mode: Option<PreviewMode>,
    pub hotkey: Option<HotkeyModel>,
}

pub fn copy_opt_preview_mode(o: &Option<PreviewMode>) -> (r: Option<PreviewMode>)
    ensures
        r == *o,
{
    match o {
        Some(m) => Some(m.copy()),
        None => None,
    }
}

impl View for CustomWindowRule {
    type V = CustomWindowRuleModel;

    open spec fn view(&self) -> CustomWindowRuleModel {
        CustomWindowRuleModel {
            title_pattern: self.title_pattern,
            class_pattern: self.class_pattern,
            alias: self.alias,
            default_width: self.default_width,
            default_height: self.default_height,
            limit: self.limit,
            active_border_color: self.active_border_color,
            inactive_border_color: self.inactive_border_color,
            active_border_size: self.active_border_size,
            inactive_border_size: self.inactive_border_size,
            text_color: self.text_color,
            text_size: self.text_size,
            text_x: self.text_x,
            text_y: self.text_y,
            preview_mode: self.preview_mode,
            hotkey: opt_hotkey(self.hotkey),
        }
    }
}

/// The views of a sequence of rules.
pub open spec fn rule_views(v: Seq<CustomWindowRule>) -> Seq<CustomWindowRuleModel> {
    v.map_values(|r: CustomWindowRule| r@)
}

impl Duplicate for CustomWindowRule {
    fn duplicate(&self) -> (r: CustomWindowRule) {
        CustomWindowRule {
            title_pattern: copy_opt_string(&self.title_pattern),
            class_pattern: copy_opt_string(&self.class_pattern),
            alias: self.alias.clone(),
            default_width: self.default_width,
            default_height: self.default_height,
            limit: self.limit,
            active_border_color: copy_opt_string(&self.active_border_color),
            inactive_border_color: copy_opt_string(&self.inactive_border_color),
            active_border_size: self.active_border_size,
            inactive_border_size: self.inactive_border_size,
            text_color: copy_opt_string(&self.text_color),
            text_size: self.text_size,
            text_x: self.text_x,
            text_y: self.text_y,
            preview_mode: copy_opt_preview_mode(&self.preview_mode),
            hotkey: copy_opt_hotkey(&self.hotkey),
        }
    }
}

/// Hotkey backend selection.
#[derive(Debug, Clone, Copy, PartialEq, Eq, Structural)]
pub enum HotkeyBackendType {
    /// X11 XGrabKey (default, needs no permissions).
    X11,
    /// Raw evdev input (needs input group membership).
    Evdev,
}

/// How saving treats the configuration already on disk.
#[derive(Debug, Clone, Copy, PartialEq, Eq, Structural)]
pub enum SaveStrategy {
    /// Keep the positions and sizes stored on disk for characters known
    /// to both.
    Preserve,
    /// Write the in-memory state as it is.
    Overwrite,
}

/// Global application settings.
#[derive(Debug, Clone, PartialEq, Eq)]
pub struct GlobalSettings {
    pub selected_profile: String,
    pub window_width: u16,
    pub window_height: u16,
}

impl Default for GlobalSettings {
    /// The default profile selected, default manager window size.
    fn default() -> (g: GlobalSettings)
        ensures
            g.selected_profile@ == constants::PROFILE_NAME@,
            g.window_width == constants::MANAGER_WINDOW_WIDTH,
            g.window_height == constants::MANAGER_WINDOW_HEIGHT,
    {
        GlobalSettings {
            selected_profile: default_profile_name(),
            window_width: default_window_width(),
            window_height: default_window_height(),
        }
    }
}

/// A complete set of visual and behavioural settings.
#[derive(Debug)]
pub struct Profile {
    pub profile_name: String,
    pub profile_description: String,
    pub thumbnail_default_width: u16,
    pub thumbnail_default_height: u16,
    /// Thumbnails rendered at all (the daemon still runs for hotkeys).
    pub thumbnail_enabled: bool,
    pub thumbnail_opacity: u8,
    pub thumbnail_active_border: bool,
    pub thumbnail_active_border_size: u16,
    pub thumbnail_active_border_color: String,
    pub thumbnail_inactive_border: bool,
    pub thumbnail_inactive_border_size: u16,
    pub thumbnail_inactive_border_color: String,
    pub thumbnail_text_size: u16,
    pub thumbnail_text_x: i16,
    pub thumbnail_text_y: i16,
    pub thumbnail_text_font: String,
    pub thumbnail_text_color: String,
    /// Save positions automatically when thumbnails are dragged.
    pub thumbnail_auto_save_position: bool,
    pub thumbnail_snap_threshold: u16,
    pub thumbnail_hide_not_focused: bool,
    /// A character without a saved position inherits its client's thumbnail position.
    pub thumbnail_preserve_position_on_swap: bool,
    pub client_minimize_on_switch: bool,
    pub client_minimize_show_overlay: bool,
    pub hotkey_backend: HotkeyBackendType,
    /// Input device for the evdev backend (None = all).
    pub hotkey_input_device: Option<String>,
    pub cycle_groups: Vec<CycleGroup>,
    /// Include logged-out clients that had a character this session.
    pub hotkey_logged_out_cycle: bool,
    pub hotkey_require_eve_focus: bool,
    pub hotkey_profile_switch: Option<HotkeyBinding>,
    pub hotkey_toggle_skip: Option<HotkeyBinding>,
    pub hotkey_toggle_previews: Option<HotkeyBinding>,
    /// Per-character hotkeys.
    pub character_hotkeys: NameMap<HotkeyBinding>,
    /// Per-character positions, sizes and overrides.
    pub character_thumbnails: NameMap<CharacterSettings>,
    /// Per-custom-source positions, sizes and overrides.
    pub custom_source_thumbnails: NameMap<CharacterSettings>,
    pub custom_windows: Vec<CustomWindowRule>,
}

/// The mathematical value of a profile.
#[verifier::ext_equal]
pub struct ProfileModel {
    pub profile_name: Seq<char>,
    pub profile_description: Seq<char>,
    pub thumbnail_default_width: u16,
    pub thumbnail_default_height: u16,
    pub thumbnail_enabled: bool,
    pub thumbnail_opacity: u8,
    pub thumbnail_active_border: bool,
    pub thumbnail_active_border_size: u16,
    pub thumbnail_active_border_color: Seq<char>,
    pub thumbnail_inactive_border: bool,
    pub thumbnail_inactive_border_size: u16,
    pub thumbnail_inactive_border_color: Seq<char>,
    pub thumbnail_text_size: u16,
    pub thumbnail_text_x: i16,
    pub thumbnail_text_y: i16,
    pub thumbnail_text_font: Seq<char>,
    pub thumbnail_text_color: Seq<char>,
    pub thumbnail_auto_save_position: bool,
    pub thumbnail_snap_threshold: u16,
    pub thumbnail_hide_not_focused: bool,
    pub thumbnail_preserve_position_on_swap: bool,
    pub client_minimize_on_switch: bool,
    pub client_minimize_show_overlay: bool,
    pub hotkey_backend: HotkeyBackendType,
    pub hotkey_input_device: Option<String>,
    pub cycle_groups: Seq<CycleGroupModel>,
    pub hotkey_logged_out_cycle: bool,
    pub hotkey_require_eve_focus: bool,
    pub hotkey_profile_switch: Option<HotkeyModel>,
    pub hotkey_toggle_skip: Option<HotkeyModel>,
    pub hotkey_toggle_previews: Option<HotkeyModel>,
    pub character_hotkeys: Map<Seq<char>, HotkeyModel>,
    pub character_thumbnails: Map<Seq<char>, CharacterSettings>,
    pub custom_source_thumbnails: Map<Seq<char>, CharacterSettings>,
    pub custom_windows: Seq<CustomWindowRuleModel>,
}

pub open spec fn group_views(v: Seq<CycleGroup>) -> Seq<CycleGroupModel> {
    v.map_values(|g: CycleGroup| g@)
}

impl View for Profile {
    type V = ProfileModel;

    open spec fn view(&self) -> ProfileModel {
        ProfileModel {
            profile_name: self.profile_name@,
            profile_description: self.profile_description@,
            thumbnail_default_width: self.thumbnail_default_width,
            thumbnail_default_height: self.thumbnail_default_height,
            thumbnail_enabled: self.thumbnail_enabled,
            thumbnail_opacity: self.thumbnail_opacity,
            thumbnail_active_border: self.thumbnail_active_border,
            thumbnail_active_border_size: self.thumbnail_active_border_size,
            thumbnail_active_border_color: self.thumbnail_active_border_color@,
            thumbnail_inactive_border: self.thumbnail_inactive_border,
            thumbnail_inactive_border_size: self.thumbnail_inactive_border_size,
            thumbnail_inactive_border_color: self.thumbnail_inactive_border_color@,
            thumbnail_text_size: self.thumbnail_text_size,
            thumbnail_text_x: self.thumbnail_text_x,
            thumbnail_text_y: self.thumbnail_text_y,
            thumbnail_text_font: self.thumbnail_text_font@,
            thumbnail_text_color: self.thumbnail_text_color@,
            thumbnail_auto_save_position: self.thumbnail_auto_save_position,
            thumbnail_snap_threshold: self.thumbnail_snap_threshold,
            thumbnail_hide_not_focused: self.thumbnail_hide_not_focused,
            thumbnail_preserve_position_on_swap: self.thumbnail_preserve_position_on_swap,
            client_minimize_on_switch: self.client_minimize_on_switch,
            client_minimize_show_overlay: self.client_minimize_show_overlay,
            hotkey_backend: self.hotkey_backend,
            hotkey_input_device: self.hotkey_input_device,
            cycle_groups: group_views(self.cycle_groups@),
            hotkey_logged_out_cycle: self.hotkey_logged_out_cycle,
            hotkey_require_eve_focus: self.hotkey_require_eve_focus,
            hotkey_profile_switch: opt_hotkey(self.hotkey_profile_switch),
            hotkey_toggle_skip: opt_hotkey(self.hotkey_toggle_skip),
            hotkey_toggle_previews: opt_hotkey(self.hotkey_toggle_previews),
            character_hotkeys: self.character_hotkeys@,
            character_thumbnails: self.character_thumbnails@,
            custom_source_thumbnails: self.custom_source_thumbnails@,
            custom_windows: rule_views(self.custom_windows@),
        }
    }
}

/// A copy of a vector whose elements keep their views.
pub fn duplicate_vec<T: Duplicate>(v: &Vec<T>) -> (r: Vec<T>)
    ensures
        r@.len() == v@.len(),
        forall|i: int| 0 <= i < v@.len() ==> (#[trigger] r@[i])@ == v@[i]@,
{
    let mut r: Vec<T> = Vec::new();
    let mut i: usize = 0;
    while i < v.len()
        invariant
            i <= v@.len(),
            r@.len() == i,
            forall|j: int| 0 <= j < i ==> (#[trigger] r@[j])@ == v@[j]@,
        decreases v@.len() - i,
    {
        r.push(v[i].duplicate());
        i = i + 1;
    }
    r
}

pub fn duplicate_groups(v: &Vec<CycleGroup>) -> (r: Vec<CycleGroup>)
    ensures
        group_views(r@) == group_views(v@),
{
    let r = duplicate_vec(v);
    assert(group_views(r@) =~= group_views(v@));
    r
}

pub fn duplicate_rules(v: &Vec<CustomWindowRule>) -> (r: Vec<CustomWindowRule>)
    ensures
        rule_views(r@) == rule_views(v@),
{
    let r = duplicate_vec(v);
    assert(rule_views(r@) =~= rule_views(v@));
    r
}

impl Duplicate for Profile {
    fn duplicate(&self) -> (r: Profile) {
        Profile {
            profile_name: self.profile_name.clone(),
            profile_description: self.profile_description.clone(),
            thumbnail_default_width: self.thumbnail_default_width,
            thumbnail_default_height: self.thumbnail_default_height,
            thumbnail_enabled: self.thumbnail_enabled,
            thumbnail_opacity: self.thumbnail_opacity,
            thumbnail_active_border: self.thumbnail_active_border,
            thumbnail_active_border_size: self.thumbnail_active_border_size,
            thumbnail_active_border_color: self.thumbnail_active_border_color.clone(),
            thumbnail_inactive_border: self.thumbnail_inactive_border,
            thumbnail_inactive_border_size: self.thumbnail_inactive_border_size,
            thumbnail_inactive_border_color: self.thumbnail_inactive_border_color.clone(),
            thumbnail_text_size: self.thumbnail_text_size,
            thumbnail_text_x: self.thumbnail_text_x,
            thumbnail_text_y: self.thumbnail_text_y,
            thumbnail_text_font: self.thumbnail_text_font.clone(),
            thumbnail_text_color: self.thumbnail_text_color.clone(),
            thumbnail_auto_save_position: self.thumbnail_auto_save_position,
            thumbnail_snap_threshold: self.thumbnail_snap_threshold,
            thumbnail_hide_not_focused: self.thumbnail_hide_not_focused,
            thumbnail_preserve_position_on_swap: self.thumbnail_preserve_position_on_swap,
            client_minimize_on_switch: self.client_minimize_on_switch,
            client_minimize_show_overlay: self.client_minimize_show_overlay,
            hotkey_backend: self.hotkey_backend,
            hotkey_input_device: copy_opt_string(&self.hotkey_input_device),
            cycle_groups: duplicate_groups(&self.cycle_groups),
            hotkey_logged_out_cycle: self.hotkey_logged_out_cycle,
            hotkey_require_eve_focus: self.hotkey_require_eve_focus,
            hotkey_profile_switch: copy_opt_hotkey(&self.hotkey_profile_switch),
            hotkey_toggle_skip: copy_opt_hotkey(&self.hotkey_toggle_skip),
            hotkey_toggle_previews: copy_opt_hotkey(&self.hotkey_toggle_previews),
            character_hotkeys: self.character_hotkeys.duplicate(),
            character_thumbnails: self.character_thumbnails.duplicate(),
            custom_source_thumbnails: self.custom_source_thumbnails.duplicate(),
            custom_windows: duplicate_rules(&self.custom_windows),
        }
    }
}

pub fn default_border_size() -> (r: u16)
    ensures
        r == constants::BORDER_SIZE,
{
    constants::BORDER_SIZE
}

pub fn default_profile_name() -> (r: String)
    ensures
        r@ == constants::PROFILE_NAME@,
{
    owned(constants::PROFILE_NAME)
}

pub fn default_hotkey_backend() -> (r: HotkeyBackendType)
    ensures
        r == HotkeyBackendType::X11,
{
    HotkeyBackendType::X11
}

pub fn default_window_width() -> (r: u16)
    ensures
        r == constants::MANAGER_WINDOW_WIDTH,
{
    constants::MANAGER_WINDOW_WIDTH
}

pub fn default_window_height() -> (r: u16)
    ensures
        r == constants::MANAGER_WINDOW_HEIGHT,
{
    constants::MANAGER_WINDOW_HEIGHT
}

pub fn default_snap_threshold() -> (r: u16)
    ensures
        r == constants::SNAP_THRESHOLD,
{
    constants::SNAP_THRESHOLD
}

pub fn default_preserve_thumbnail_position_on_swap() -> (r: bool)
    ensures
        r == constants::PRESERVE_POSITION_ON_SWAP,
{
    constants::PRESERVE_POSITION_ON_SWAP
}

pub fn default_thumbnail_width() -> (r: u16)
    ensures
        r == constants::THUMBNAIL_WIDTH,
{
    constants::THUMBNAIL_WIDTH
}

pub fn default_thumbnail_height() -> (r: u16)
    ensures
        r == constants::THUMBNAIL_HEIGHT,
{
    constants::THUMBNAIL_HEIGHT
}

pub fn default_thumbnail_enabled() -> (r: bool)
    ensures
        r,
{
    true
}

pub fn default_border_enabled() -> (r: bool)
    ensures
        r == constants::BORDER_ENABLED,
{
    constants::BORDER_ENABLED
}

pub fn default_inactive_border_enabled() -> (r: bool)
    ensures
        !r,
{
    false
}

pub fn default_inactive_border_color() -> (r: String)
    ensures
        r@ == constants::BORDER_INACTIVE_COLOR@,
{
    owned(constants::BORDER_INACTIVE_COLOR)
}

/// The default font family: the TrueType font detected on the system, or
/// the empty string (the daemon then falls back to X11 core fonts).
pub fn default_text_font_family(detected: Option<String>) -> (r: String)
    ensures
        r@ == (match detected {
            Some(name) => name@,
            None => Seq::<char>::empty(),
        }),
{
    match detected {
        Some(name) => name,
        None => String::new(),
    }
}

pub fn default_auto_save_thumbnail_positions() -> (r: bool)
    ensures
        r,
{
    true
}

/// The settings of a fresh profile, with the given name, description and font.
pub open spec fn spec_default_profile(name: Seq<char>, description: Seq<char>, font: Seq<char>) -> ProfileModel {
    ProfileModel {
        profile_name: name,
        profile_description: description,
        thumbnail_default_width: constants::THUMBNAIL_WIDTH,
        thumbnail_default_height: constants::THUMBNAIL_HEIGHT,
        thumbnail_enabled: true,
        thumbnail_opacity: constants::THUMBNAIL_OPACITY_PERCENT,
        thumbnail_active_border: constants::BORDER_ENABLED,
        thumbnail_active_border_size: constants::BORDER_SIZE,
        thumbnail_active_border_color: constants::BORDER_ACTIVE_COLOR@,
        thumbnail_inactive_border: false,
        thumbnail_inactive_border_size: constants::BORDER_SIZE,
        thumbnail_inactive_border_color: constants::BORDER_INACTIVE_COLOR@,
        thumbnail_text_size: constants::TEXT_SIZE,
        thumbnail_text_x: constants::TEXT_OFFSET_X,
        thumbnail_text_y: constants::TEXT_OFFSET_Y,
        thumbnail_text_font: font,
        thumbnail_text_color: constants::TEXT_COLOR@,
        thumbnail_auto_save_position: true,
        thumbnail_snap_threshold: constants::SNAP_THRESHOLD,
        thumbnail_hide_not_focused: constants::HIDE_WHEN_NO_FOCUS,
        thumbnail_preserve_position_on_swap: constants::PRESERVE_POSITION_ON_SWAP,
        client_minimize_on_switch: constants::MINIMIZE_CLIENTS_ON_SWITCH,
        client_minimize_show_overlay: false,
        hotkey_backend: HotkeyBackendType::X11,
        hotkey_input_device: None,
        cycle_groups: seq![CycleGroupModel {
            name: "Default"@,
            characters: Seq::empty(),
            hotkey_forward: None,
            hotkey_backward: None,
        }],
        hotkey_logged_out_cycle: false,
        hotkey_require_eve_focus: constants::HOTKEY_REQUIRE_EVE_FOCUS,
        hotkey_profile_switch: None,
        hotkey_toggle_skip: None,
        hotkey_toggle_previews: None,
        character_hotkeys: Map::empty(),
        character_thumbnails: Map::empty(),
        custom_source_thumbnails: Map::empty(),
        custom_windows: Seq::empty(),
    }
}

/// The list of profiles a new configuration starts with: the default
/// profile alone, using the detected default font (if any).
pub fn default_profiles(detected_font: Option<String>) -> (r: Vec<Profile>)
    ensures
        r@.len() == 1,
        r@[0]@ == spec_default_profile(
            constants::PROFILE_NAME@,
            constants::PROFILE_DESCRIPTION@,
            match detected_font { Some(f) => f@, None => Seq::<char>::empty() },
        ),
{
    let mut groups: Vec<CycleGroup> = Vec::new();
    groups.push(CycleGroup::default_group());
    let p = Profile {
        profile_name: owned(constants::PROFILE_NAME),
        profile_description: owned(constants::PROFILE_DESCRIPTION),
        thumbnail_default_width: default_thumbnail_width(),
        thumbnail_default_height: default_thumbnail_height(),
        thumbnail_enabled: default_thumbnail_enabled(),
        thumbnail_opacity: constants::THUMBNAIL_OPACITY_PERCENT,
        thumbnail_active_border: constants::BORDER_ENABLED,
        thumbnail_active_border_size: constants::BORDER_SIZE,
        thumbnail_active_border_color: owned(constants::BORDER_ACTIVE_COLOR),
        thumbnail_inactive_border: default_inactive_border_enabled(),
        thumbnail_inactive_border_size: constants::BORDER_SIZE,
        thumbnail_inactive_border_color: default_inactive_border_color(),
        thumbnail_text_size: constants::TEXT_SIZE,
        thumbnail_text_x: constants::TEXT_OFFSET_X,
        thumbnail_text_y: constants::TEXT_OFFSET_Y,
        thumbnail_text_font: default_text_font_family(detected_font),
        thumbnail_text_color: owned(constants::TEXT_COLOR),
        thumbnail_auto_save_position: default_auto_save_thumbnail_positions(),
        thumbnail_snap_threshold: default_snap_threshold(),
        thumbnail_hide_not_focused: constants::HIDE_WHEN_NO_FOCUS,
        thumbnail_preserve_position_on_swap: default_preserve_thumbnail_position_on_swap(),
        client_minimize_on_switch: constants::MINIMIZE_CLIENTS_ON_SWITCH,
        client_minimize_show_overlay: false,
        hotkey_backend: default_hotkey_backend(),
        hotkey_input_device: None,
        cycle_groups: groups,
        hotkey_logged_out_cycle: false,
        hotkey_require_eve_focus: constants::HOTKEY_REQUIRE_EVE_FOCUS,
        hotkey_profile_switch: None,
        hotkey_toggle_skip: None,
        hotkey_toggle_previews: None,
        character_hotkeys: NameMap::new(),
        character_thumbnails: NameMap::new(),
        custom_source_thumbnails: NameMap::new(),
        custom_windows: Vec::new(),
    };
    assert(group_views(p.cycle_groups@) =~= seq![CycleGroupModel {
        name: "Default"@,
        characters: Seq::empty(),
        hotkey_forward: None,
        hotkey_backward: None,
    }]);
    let mut r: Vec<Profile> = Vec::new();
    r.push(p);
    r
}

impl Profile {
    /// A profile with the default settings and the given name and
    /// description; `detected_font` is the system's default TrueType font.
    pub fn default_with_name(name: String, description: String, detected_font: Option<String>) -> (p: Profile)
        ensures
            p@ == spec_default_profile(
                name@,
                description@,
                match detected_font { Some(f) => f@, None => Seq::<char>::empty() },
            ),
    {
        let mut profiles = default_profiles(detected_font);
        let mut profile = profiles.remove(0);
        profile.profile_name = name;
        profile.profile_description = description;
        profile
    }
}

impl Default for Profile {
    /// The default profile, with the X11 fallback font (no detected font).
    fn default() -> (p: Profile)
        ensures
            p@ == spec_default_profile(constants::PROFILE_NAME@, constants::PROFILE_DESCRIPTION@, Seq::empty()),
    {
        let mut profiles = default_profiles(None);
        profiles.remove(0)
    }
}

/// Top-level configuration: global settings and the profiles.
#[derive(Debug)]
pub struct Config {
    pub global: GlobalSettings,
    pub profiles: Vec<Profile>,
}

pub open spec fn profile_views(v: Seq<Profile>) -> Seq<ProfileModel> {
    v.map_values(|p: Profile| p@)
}

/// Index of the first profile named `name`, if any.
pub open spec fn first_named(profiles: Seq<Profile>, name: Seq<char>) -> Option<int> {
    if exists|i: int| 0 <= i < profiles.len() && #[trigger] profiles[i].profile_name@ == name {
        Some(choose|i: int| 0 <= i < profiles.len() && #[trigger] profiles[i].profile_name@ == name
            && forall|j: int| 0 <= j < i ==> #[trigger] profiles[j].profile_name@ != name)
    } else {
        None
    }
}

/// `first_named` picks the first match.
pub proof fn lemma_first_named(profiles: Seq<Profile>, name: Seq<char>, i: int)
    requires
        0 <= i < profiles.len(),
        profiles[i].profile_name@ == name,
        forall|j: int| 0 <= j < i ==> #[trigger] profiles[j].profile_name@ != name,
    ensures
        first_named(profiles, name) == Some(i),
{
    let k = choose|k: int| 0 <= k < profiles.len() && #[trigger] profiles[k].profile_name@ == name
        && forall|j: int| 0 <= j < k ==> #[trigger] profiles[j].profile_name@ != name;
    assert(0 <= i < profiles.len() && profiles[i].profile_name@ == name && forall|j: int| 0 <= j < i ==> #[trigger] profiles[j].profile_name@ != name);
    if k < i {
        assert(profiles[k].profile_name@ != name);
    } else if k > i {
        assert(profiles[i].profile_name@ != name);
    }
}

/// The profile `first_named` picks carries the name, and no earlier one does.
proof fn lemma_first_named_found(profiles: Seq<Profile>, name: Seq<char>)
    requires
        first_named(profiles, name) is Some,
    ensures
        0 <= first_named(profiles, name)->0 < profiles.len(),
        profiles[first_named(profiles, name)->0].profile_name@ == name,
        forall|j: int| 0 <= j < first_named(profiles, name)->0 ==> #[trigger] profiles[j].profile_name@ != name,
{
    let w = choose|i: int| 0 <= i < profiles.len() && #[trigger] profiles[i].profile_name@ == name;
    assert(exists|f: int| 0 <= f < profiles.len() && #[trigger] profiles[f].profile_name@ == name
        && forall|j: int| 0 <= j < f ==> #[trigger] profiles[j].profile_name@ != name) by {
        lemma_first_occurrence(profiles, name, w);
    };
}

/// A profile named `name` at `w` has a first occurrence at or before it.
proof fn lemma_first_occurrence(profiles: Seq<Profile>, name: Seq<char>, w: int)
    requires
        0 <= w < profiles.len(),
        profiles[w].profile_name@ == name,
    ensures
        exists|f: int| 0 <= f < profiles.len() && #[trigger] profiles[f].profile_name@ == name
            && forall|j: int| 0 <= j < f ==> #[trigger] profiles[j].profile_name@ != name,
    decreases w,
{
    if forall|j: int| 0 <= j < w ==> #[trigger] profiles[j].profile_name@ != name {
    } else {
        let v = choose|j: int| 0 <= j < w && #[trigger] profiles[j].profile_name@ == name;
        lemma_first_occurrence(profiles, name, v);
    }
}

/// The mutable accessor of the selected profile reaches the profile the
/// shared accessor reads: writing `q` through it (keeping its name)
/// replaces exactly that profile and leaves the selection on it, so the
/// shared accessor then reads `q`; writing back what was read changes
/// nothing.
pub proof fn lemma_active_profile_write_read(profiles: Seq<Profile>, name: Seq<char>, q: Profile)
    requires
        first_named(profiles, name) is Some,
        q.profile_name@ == name,
    ensures
        ({
            let i = first_named(profiles, name)->0;
            &&& first_named(profiles.update(i, q), name) == Some(i)
            &&& profiles.update(i, q)[i] == q
            &&& forall|j: int| 0 <= j < profiles.len() && j != i ==> #[trigger] profiles.update(i, q)[j] == profiles[j]
            &&& profiles.update(i, profiles[i]) == profiles
        }),
{
    lemma_first_named_found(profiles, name);
    let i = first_named(profiles, name)->0;
    let u = profiles.update(i, q);
    assert forall|j: int| 0 <= j < i implies #[trigger] u[j].profile_name@ != name by {
        assert(u[j] == profiles[j]);
    };
    lemma_first_named(u, name, i);
    assert(profiles.update(i, profiles[i]) =~= profiles);
}

/// Find the first profile named `name`.
pub fn find_profile(profiles: &Vec<Profile>, name: &str) -> (r: Option<usize>)
    ensures
        r matches Some(i) ==> first_named(profiles@, name@) == Some(i as int) && i < profiles@.len()
            && profiles@[i as int].profile_name@ == name@,
        r is None ==> first_named(profiles@, name@) is None,
{
    let mut i: usize = 0;
    while i < profiles.len()
        invariant
            i <= profiles@.len(),
            forall|j: int| 0 <= j < i ==> #[trigger] profiles@[j].profile_name@ != name@,
        decreases profiles@.len() - i,
    {
        if str_eq(profiles[i].profile_name.as_str(), name) {
            proof { lemma_first_named(profiles@, name@, i as int); }
            return Some(i);
        }
        i = i + 1;
    }
    None
}

impl Config {
    /// The default configuration with the detected default font.
    pub fn default_with_font(detected_font: Option<String>) -> (c: Config)
        ensures
            c.global.selected_profile@ == constants::PROFILE_NAME@,
            c.global.window_width == constants::MANAGER_WINDOW_WIDTH,
            c.global.window_height == constants::MANAGER_WINDOW_HEIGHT,
            c.profiles@.len() == 1,
            c.profiles@[0]@ == spec_default_profile(
                constants::PROFILE_NAME@,
                constants::PROFILE_DESCRIPTION@,
                match detected_font { Some(f) => f@, None => Seq::<char>::empty() },
            ),
    {
        Config { global: GlobalSettings::default(), profiles: default_profiles(detected_font) }
    }

    /// The selected profile: the first one whose name is the global selection.
    pub fn get_active_profile(&self) -> (r: Option<&Profile>)
        ensures
            r is None <==> first_named(self.profiles@, self.global.selected_profile@) is None,
            r matches Some(p) ==> *p == self.profiles@[first_named(self.profiles@, self.global.selected_profile@)->0],
    {
        match find_profile(&self.profiles, self.global.selected_profile.as_str()) {
            Some(i) => Some(&self.profiles[i]),
            None => None,
        }
    }

    /// The selected profile, for changing it in place.
    pub fn get_active_profile_mut(&mut self) -> (r: Option<&mut Profile>)
        ensures
            r is None <==> first_named(old(self).profiles@, old(self).global.selected_profile@) is None,
            r is None ==> *final(self) == *old(self),
            r matches Some(p) ==> {
                let i = first_named(old(self).profiles@, old(self).global.selected_profile@)->0;
                &&& *p == old(self).profiles@[i]
                &&& final(self).profiles@ == old(self).profiles@.update(i, *final(p))
                &&& final(self).global == old(self).global
            },
    {
        match find_profile(&self.profiles, self.global.selected_profile.as_str()) {
            Some(i) => Some(&mut self.profiles[i]),
            None => None,
        }
    }

    /// Index of the selected profile, if any.
    pub fn active_profile_index(&self) -> (r: Option<usize>)
        ensures
            r matches Some(i) ==> first_named(self.profiles@, self.global.selected_profile@) == Some(i as int),
            r is None ==> first_named(self.profiles@, self.global.selected_profile@) is None,
    {
        find_profile(&self.profiles, self.global.selected_profile.as_str())
    }
}

impl Default for Config {
    /// The default configuration with the X11 fallback font.
    fn default() -> (c: Config)
        ensures
            c.global.selected_profile@ == constants::PROFILE_NAME@,
            c.global.window_width == constants::MANAGER_WINDOW_WIDTH,
            c.global.window_height == constants::MANAGER_WINDOW_HEIGHT,
            c.profiles@.len() == 1,
            c.profiles@[0]@ == spec_default_profile(constants::PROFILE_NAME@, constants::PROFILE_DESCRIPTION@, Seq::empty()),
    {
        Config::default_with_font(None)
    }
}

} // verus!

verus! {

/// Whether one of the first `i` strings is `q`.
pub open spec fn among_first(keys: Seq<String>, i: int, q: Seq<char>) -> bool {
    exists|j: int| 0 <= j < i && #[trigger] keys[j]@ == q
}

/// Whether some rule's alias is `k`.
pub open spec fn is_custom_alias(rules: Seq<CustomWindowRuleModel>, k: Seq<char>) -> bool {
    exists|i: int| 0 <= i < rules.len() && #[trigger] rules[i].alias@ == k
}

fn has_alias(rules: &Vec<CustomWindowRule>, key: &str) -> (b: bool)
    ensures
        b == is_custom_alias(rule_views(rules@), key@),
{
    let mut i: usize = 0;
    while i < rules.len()
        invariant
            i <= rules@.len(),
            forall|j: int| 0 <= j < i ==> #[trigger] rules@[j].alias@ != key@,
        decreases rules@.len() - i,
    {
        if str_eq(rules[i].alias.as_str(), key) {
            assert(rule_views(rules@)[i as int].alias@ == key@);
            return true;
        }
        i = i + 1;
    }
    assert forall|j: int| 0 <= j < rule_views(rules@).len() implies #[trigger] rule_views(rules@)[j].alias@ != key@ by {
        assert(rules@[j].alias@ != key@);
    };
    false
}

/// The entries of `m` whose keys are not custom-source aliases.
pub open spec fn without_aliases(m: Map<Seq<char>, CharacterSettings>, rules: Seq<CustomWindowRuleModel>) -> Map<Seq<char>, CharacterSettings> {
    Map::new(|k: Seq<char>| m.contains_key(k) && !is_custom_alias(rules, k), |k: Seq<char>| m[k])
}

/// The entries of `m` whose keys are custom-source aliases.
pub open spec fn only_aliases(m: Map<Seq<char>, CharacterSettings>, rules: Seq<CustomWindowRuleModel>) -> Map<Seq<char>, CharacterSettings> {
    Map::new(|k: Seq<char>| m.contains_key(k) && is_custom_alias(rules, k), |k: Seq<char>| m[k])
}

/// Move every entry of `characters` whose name is a custom-source alias
/// into `custom_sources` (replacing an entry of the same name there).
pub fn separate_custom_sources(
    characters: &mut NameMap<CharacterSettings>,
    custom_sources: &mut NameMap<CharacterSettings>,
    rules: &Vec<CustomWindowRule>,
)
    ensures
        final(characters)@ == without_aliases(old(characters)@, rule_views(rules@)),
        final(custom_sources)@ == old(custom_sources)@.union_prefer_right(only_aliases(old(characters)@, rule_views(rules@))),
{
    let ghost orig = characters@;
    let ghost orig_custom = custom_sources@;
    let keys = characters.keys();
    let ghost entries = characters.spec_entries();
    let _distinct = characters.entries();
    proof {
        characters.lemma_entries();
    }
    let n = keys.len();
    let mut i: usize = 0;
    while i < n
        invariant
            i <= n,
            n == keys@.len(),
            keys@.len() == entries.len(),
            forall|j: int| 0 <= j < keys@.len() ==> #[trigger] keys@[j]@ == entries[j].0@,
            crate::name_map::keys_distinct(entries),
            orig == crate::name_map::entries_map(entries),
            characters@ == Map::new(
                |k: Seq<char>| orig.contains_key(k) && !(is_custom_alias(rule_views(rules@), k) && among_first(keys@, i as int, k)),
                |k: Seq<char>| orig[k],
            ),
            custom_sources@ == orig_custom.union_prefer_right(Map::new(
                |k: Seq<char>| orig.contains_key(k) && is_custom_alias(rule_views(rules@), k) && among_first(keys@, i as int, k),
                |k: Seq<char>| orig[k],
            )),
        decreases n - i,
    {
        let key = keys[i].as_str();
        let ghost k = keys@[i as int]@;
        proof {
            crate::name_map::lemma_entry_in_map(entries, i as int);
        }
        if has_alias(rules, key) {
            let ghost before_chars = characters@;
            let moved = characters.remove(key);
            match moved {
                Some(v) => {
                    custom_sources.insert(keys[i].clone(), v);
                },
                None => {
                    assert(false);
                },
            }
        }
        proof {
            assert forall|q: Seq<char>| among_first(keys@, i + 1, q)
                == (among_first(keys@, i as int, q) || q == k) by {
                if q == k {
                    assert(keys@[i as int]@ == q);
                }
            };
        }
        i = i + 1;
        proof {
            assert(characters@ =~= Map::new(
                |q: Seq<char>| orig.contains_key(q) && !(is_custom_alias(rule_views(rules@), q) && among_first(keys@, i as int, q)),
                |q: Seq<char>| orig[q],
            ));
            assert(custom_sources@ =~= orig_custom.union_prefer_right(Map::new(
                |q: Seq<char>| orig.contains_key(q) && is_custom_alias(rule_views(rules@), q) && among_first(keys@, i as int, q),
                |q: Seq<char>| orig[q],
            )));
        }
    }
    proof {
        assert forall|q: Seq<char>| orig.contains_key(q) implies among_first(keys@, n as int, q) by {
            assert(crate::name_map::has_key(entries, q));
            let j = crate::name_map::key_index(entries, q);
            assert(keys@[j]@ == q);
        };
        assert(characters@ =~= without_aliases(orig, rule_views(rules@)));
        assert(custom_sources@ =~= orig_custom.union_prefer_right(only_aliases(orig, rule_views(rules@))));
    }
}

} // verus!

verus! {

/// A profile as read from disk, with the fields of the format that
/// predates cycle groups (one group's members and its two hotkeys).
#[derive(Debug)]
pub struct ProfileHelper {
    /// Every current field, with the cycle groups as stored (possibly none).
    pub profile: Profile,
    pub hotkey_cycle_forward: Option<HotkeyBinding>,
    pub hotkey_cycle_backward: Option<HotkeyBinding>,
    pub hotkey_cycle_group: Vec<String>,
}

/// The cycle groups after migration: stored groups are kept; without any,
/// the legacy fields (if set) become a "Default" group, else the empty
/// "Default" group is used.
pub open spec fn migrated_groups(
    groups: Seq<CycleGroupModel>,
    legacy_group: Seq<Seq<char>>,
    forward: Option<HotkeyModel>,
    backward: Option<HotkeyModel>,
) -> Seq<CycleGroupModel> {
    if groups.len() > 0 {
        groups
    } else if legacy_group.len() > 0 || forward is Some || backward is Some {
        seq![CycleGroupModel { name: "Default"@, characters: legacy_group, hotkey_forward: forward, hotkey_backward: backward }]
    } else {
        seq![CycleGroupModel { name: "Default"@, characters: Seq::empty(), hotkey_forward: None, hotkey_backward: None }]
    }
}

/// A profile model with its cycle groups and thumbnail maps replaced.
pub open spec fn with_groups_and_maps(
    p: ProfileModel,
    groups: Seq<CycleGroupModel>,
    characters: Map<Seq<char>, CharacterSettings>,
    custom_sources: Map<Seq<char>, CharacterSettings>,
) -> ProfileModel {
    ProfileModel {
        cycle_groups: groups,
        character_thumbnails: characters,
        custom_source_thumbnails: custom_sources,
        ..p
    }
}

impl Profile {
    /// Build a profile from what was read: migrate the legacy cycle fields,
    /// make sure at least one cycle group exists, and move custom-source
    /// entries out of the character thumbnails.
    pub fn from_helper(helper: ProfileHelper) -> (p: Profile)
        ensures
            p@ == with_groups_and_maps(
                helper.profile@,
                migrated_groups(
                    helper.profile@.cycle_groups,
                    string_views(helper.hotkey_cycle_group@),
                    opt_hotkey(helper.hotkey_cycle_forward),
                    opt_hotkey(helper.hotkey_cycle_backward),
                ),
                without_aliases(helper.profile@.character_thumbnails, helper.profile@.custom_windows),
                helper.profile@.custom_source_thumbnails.union_prefer_right(
                    only_aliases(helper.profile@.character_thumbnails, helper.profile@.custom_windows),
                ),
            ),
    {
        let ProfileHelper { profile, hotkey_cycle_forward, hotkey_cycle_backward, hotkey_cycle_group } = helper;
        let mut profile = profile;
        let ghost start = profile@;
        let ghost target = migrated_groups(
            start.cycle_groups,
            string_views(hotkey_cycle_group@),
            opt_hotkey(hotkey_cycle_forward),
            opt_hotkey(hotkey_cycle_backward),
        );
        if profile.cycle_groups.len() == 0 {
            if hotkey_cycle_group.len() > 0 || hotkey_cycle_forward.is_some() || hotkey_cycle_backward.is_some() {
                profile.cycle_groups.push(CycleGroup {
                    name: owned("Default"),
                    characters: hotkey_cycle_group,
                    hotkey_forward: hotkey_cycle_forward,
                    hotkey_backward: hotkey_cycle_backward,
                });
            } else {
                profile.cycle_groups.push(CycleGroup::default_group());
            }
        }
        assert(group_views(profile.cycle_groups@) =~= target);
        separate_custom_sources(&mut profile.character_thumbnails, &mut profile.custom_source_thumbnails, &profile.custom_windows);
        assert(profile@ =~= with_groups_and_maps(
            start,
            target,
            without_aliases(start.character_thumbnails, start.custom_windows),
            start.custom_source_thumbnails.union_prefer_right(only_aliases(start.character_thumbnails, start.custom_windows)),
        ));
        profile
    }
}

} // verus!

verus! {

/// Settings `s` with the position and size of `d`.
pub open spec fn with_placement(s: CharacterSettings, d: CharacterSettings) -> CharacterSettings {
    CharacterSettings { x: d.x, y: d.y, dimensions: d.dimensions, ..s }
}

/// Settings `s` moved to the position of `d`, keeping their own size.
pub open spec fn with_position(s: CharacterSettings, d: CharacterSettings) -> CharacterSettings {
    CharacterSettings { x: d.x, y: d.y, ..s }
}

/// Settings `s` after taking from `d` its position, and its size too when
/// `take_size` holds.
pub open spec fn placed_from(s: CharacterSettings, d: CharacterSettings, take_size: bool) -> CharacterSettings {
    if take_size { with_placement(s, d) } else { with_position(s, d) }
}

/// Thumbnails after taking what disk holds of the names kept in memory
/// (the position, and the size when `take_size` holds); names only on
/// disk are not added.
pub open spec fn merge_from_disk(
    memory: Map<Seq<char>, CharacterSettings>,
    disk: Map<Seq<char>, CharacterSettings>,
    take_size: bool,
) -> Map<Seq<char>, CharacterSettings> {
    Map::new(
        |k: Seq<char>| memory.contains_key(k),
        |k: Seq<char>| if disk.contains_key(k) { placed_from(memory[k], disk[k], take_size) } else { memory[k] },
    )
}

/// Thumbnails after taking the placements saved on disk: every name kept
/// in memory whose name is also on disk gets the disk position and size;
/// overrides and the other settings stay as in memory; names only on disk
/// are not added.
pub open spec fn merge_positions(
    memory: Map<Seq<char>, CharacterSettings>,
    disk: Map<Seq<char>, CharacterSettings>,
) -> Map<Seq<char>, CharacterSettings> {
    merge_from_disk(memory, disk, true)
}

/// A profile after taking placements from the first disk profile of the same name.
pub open spec fn merged_profile(p: ProfileModel, disk: Seq<Profile>) -> ProfileModel {
    match first_named(disk, p.profile_name) {
        Some(j) => ProfileModel {
            character_thumbnails: merge_positions(p.character_thumbnails, disk[j].character_thumbnails@),
            custom_source_thumbnails: merge_positions(p.custom_source_thumbnails, disk[j].custom_source_thumbnails@),
            ..p
        },
        None => p,
    }
}

/// Whether one of the first `j` entries has key `q`.
pub open spec fn key_among_first<V>(entries: Seq<(String, V)>, j: int, q: Seq<char>) -> bool {
    exists|i: int| 0 <= i < j && #[trigger] entries[i].0@ == q
}

/// Take the disk position (and, when `take_size` holds, the size) of every
/// entry of `memory` that `disk` also holds.
pub fn merge_positions_into(memory: &mut NameMap<CharacterSettings>, disk: &NameMap<CharacterSettings>, take_size: bool)
    ensures
        final(memory)@ == merge_from_disk(old(memory)@, disk@, take_size),
{
    let ghost orig = memory@;
    let entries = disk.entries();
    proof { disk.lemma_entries(); }
    let mut j: usize = 0;
    while j < entries.len()
        invariant
            j <= entries@.len(),
            entries@ == disk.spec_entries(),
            crate::name_map::keys_distinct(entries@),
            disk@ == crate::name_map::entries_map(entries@),
            memory@ == Map::new(
                |k: Seq<char>| orig.contains_key(k),
                |k: Seq<char>| if disk@.contains_key(k) && key_among_first(entries@, j as int, k) {
                    placed_from(orig[k], disk@[k], take_size)
                } else {
                    orig[k]
                },
            ),
        decreases entries@.len() - j,
    {
        let name = entries[j].0.as_str();
        let ghost k = entries@[j as int].0@;
        proof { crate::name_map::lemma_entry_in_map(entries@, j as int); }
        let d = &entries[j].1;
        let ghost before = memory@;
        match memory.find(name) {
            Some(i) => {
                let mut s = memory.value_at(i).copy();
                s.x = d.x;
                s.y = d.y;
                if take_size {
                    s.dimensions = d.dimensions;
                }
                memory.set_value_at(i, s);
            },
            None => {},
        }
        proof {
            assert forall|q: Seq<char>| #[trigger] key_among_first(entries@, j + 1, q) == (key_among_first(entries@, j as int, q) || q == k) by {
                if q == k {
                    assert(entries@[j as int].0@ == q);
                }
                if key_among_first(entries@, j + 1, q) && q != k {
                    let w = choose|w: int| 0 <= w < j + 1 && #[trigger] entries@[w].0@ == q;
                    assert(w != j);
                }
            };
            if key_among_first(entries@, j as int, k) {
                let w = choose|w: int| 0 <= w < j && #[trigger] entries@[w].0@ == k;
                assert(entries@[w].0@ != entries@[j as int].0@);
            }
        }
        j = j + 1;
        proof {
            assert(memory@ =~= Map::new(
                |q: Seq<char>| orig.contains_key(q),
                |q: Seq<char>| if disk@.contains_key(q) && key_among_first(entries@, j as int, q) {
                    placed_from(orig[q], disk@[q], take_size)
                } else {
                    orig[q]
                },
            ));
        }
    }
    proof {
        assert forall|q: Seq<char>| disk@.contains_key(q) implies key_among_first(entries@, entries@.len() as int, q) by {
            assert(crate::name_map::has_key(entries@, q));
            let w = crate::name_map::key_index(entries@, q);
            assert(entries@[w].0@ == q);
        };
        assert(memory@ =~= merge_from_disk(orig, disk@, take_size));
    }
}

/// Separating custom sources splits the thumbnails in two: every entry
/// lands in exactly one part, unchanged.
pub proof fn lemma_separation_partitions(m: Map<Seq<char>, CharacterSettings>, rules: Seq<CustomWindowRuleModel>)
    ensures
        without_aliases(m, rules).dom().disjoint(only_aliases(m, rules).dom()),
        without_aliases(m, rules).union_prefer_right(only_aliases(m, rules)) == m,
{
    assert(without_aliases(m, rules).union_prefer_right(only_aliases(m, rules)) =~= m);
}

/// Merging disk placements never adds or drops a character: the merged
/// entries are exactly those held in memory (characters deleted in memory
/// stay deleted), each with its own settings and the disk position and
/// size.
pub proof fn lemma_merge_keeps_characters(memory: Map<Seq<char>, CharacterSettings>, disk: Map<Seq<char>, CharacterSettings>)
    ensures
        merge_positions(memory, disk).dom() == memory.dom(),
        forall|k: Seq<char>| #[trigger] memory.contains_key(k) && !disk.contains_key(k)
            ==> merge_positions(memory, disk)[k] == memory[k],
        forall|k: Seq<char>| #[trigger] memory.contains_key(k) && disk.contains_key(k) ==> {
            &&& merge_positions(memory, disk)[k].x == disk[k].x
            &&& merge_positions(memory, disk)[k].y == disk[k].y
            &&& merge_positions(memory, disk)[k].dimensions == disk[k].dimensions
            &&& merge_positions(memory, disk)[k].preview_mode == memory[k].preview_mode
        },
{
    assert(merge_positions(memory, disk).dom() =~= memory.dom());
}

impl Config {
    /// The configuration to save under `SaveStrategy::Preserve`: each
    /// profile takes, from the first disk profile of the same name, the
    /// positions and sizes of the characters and custom sources it also
    /// holds; all other settings stay as in memory.
    #[verifier::rlimit(40)]
    pub fn merge_disk_positions(self, disk: &Config) -> (c: Config)
        ensures
            c.global == self.global,
            c.profiles@.len() == self.profiles@.len(),
            forall|i: int| 0 <= i < c.profiles@.len() ==> (#[trigger] c.profiles@[i])@ == merged_profile(self.profiles@[i]@, disk.profiles@),
    {
        let Config { global, profiles } = self;
        let ghost orig = profiles@;
        let mut rest = profiles;
        let mut out: Vec<Profile> = Vec::new();
        while rest.len() > 0
            invariant
                out@.len() + rest@.len() == orig.len(),
                rest@ == orig.subrange(out@.len() as int, orig.len() as int),
                forall|i: int| 0 <= i < out@.len() ==> (#[trigger] out@[i])@ == merged_profile(orig[i]@, disk.profiles@),
            decreases rest@.len(),
        {
            let ghost idx = out@.len() as int;
            let mut p = rest.remove(0);
            assert(p == orig[idx]);
            let ghost before = p@;
            match find_profile(&disk.profiles, p.profile_name.as_str()) {
                Some(j) => {
                    merge_positions_into(&mut p.character_thumbnails, &disk.profiles[j].character_thumbnails, true);
                    merge_positions_into(&mut p.custom_source_thumbnails, &disk.profiles[j].custom_source_thumbnails, true);
                    assert(p@ =~= merged_profile(before, disk.profiles@));
                },
                None => {},
            }
            out.push(p);
            assert(rest@ =~= orig.subrange(out@.len() as int, orig.len() as int));
        }
        Config { global, profiles: out }
    }
}

} // verus!
