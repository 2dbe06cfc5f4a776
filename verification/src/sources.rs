//! The "Custom Sources" tab of the manager: the rules that name windows of
//! other applications, the form that adds one, and the list of running
//! applications offered to fill that form.

use vstd::prelude::*;
use std::collections::HashSet;
use crate::constants;
use crate::domain::PreviewMode;
use crate::profile::{CustomWindowRule, CustomWindowRuleModel, Profile, ProfileModel, rule_views};
use crate::name_map::Duplicate;
use crate::text::{has_prefix, owned, starts_with, str_eq};

verus! {

broadcast use vstd::std_specs::hash::group_hash_axioms;

/// A top-level window of a running application.
#[derive(Debug, Clone, PartialEq, Eq)]
pub struct WindowInfo {
    /// The X11 window id.
    pub id: u32,
    pub title: String,
    pub class: String,
}

impl WindowInfo {
    /// A copy of the window description.
    pub fn copy(&self) -> (r: WindowInfo)
        ensures
            r == *self,
    {
        WindowInfo { id: self.id, title: self.title.clone(), class: self.class.clone() }
    }
}

/// Whether a window title is that of an EVE client ("EVE - <name>" or the
/// bare "EVE" of the login screen).
pub open spec fn is_eve_title(t: Seq<char>) -> bool {
    has_prefix(t, "EVE - "@) || t == "EVE"@
}

/// Whether two windows show the same class and title.
pub open spec fn same_app(a: WindowInfo, b: WindowInfo) -> bool {
    a.class@ == b.class@ && a.title@ == b.title@
}

/// The applications offered in the picker: EVE clients left out, then
/// each run of neighbours with the same class and title kept once.
pub open spec fn listable_apps(s: Seq<WindowInfo>) -> Seq<WindowInfo>
    decreases s.len(),
{
    if s.len() == 0 {
        Seq::empty()
    } else {
        let d = listable_apps(s.drop_last());
        let a = s.last();
        if is_eve_title(a.title@) {
            d
        } else if d.len() > 0 && same_app(d.last(), a) {
            d
        } else {
            d.push(a)
        }
    }
}

/// "<class> (<title>)".
pub open spec fn app_text(a: WindowInfo) -> Seq<char> {
    a.class@ + " ("@ + a.title@ + ")"@
}

/// The short description of a rule shown while its row is collapsed:
/// "Class: <pattern>" and "Title: <pattern>", those that are set, joined
/// by ", ".
pub open spec fn rule_details(r: CustomWindowRuleModel) -> Seq<char> {
    match (r.class_pattern, r.title_pattern) {
        (Some(c), Some(t)) => "Class: "@ + c@ + ", "@ + "Title: "@ + t@,
        (Some(c), None) => "Class: "@ + c@,
        (None, Some(t)) => "Title: "@ + t@,
        (None, None) => Seq::empty(),
    }
}

/// A pattern typed into a form field: an empty field means no pattern.
pub fn pattern_from_text(text: String) -> (p: Option<String>)
    ensures
        p matches Some(s) ==> s@ == text@ && text@.len() > 0,
        p is None <==> text@.len() == 0,
{
    if text.unicode_len() == 0 {
        None
    } else {
        Some(text)
    }
}

/// The collapsed description of a rule.
pub fn describe_rule(rule: &CustomWindowRule) -> (s: String)
    ensures
        s@ == rule_details(rule@),
{
    let mut s = String::new();
    match &rule.class_pattern {
        Some(c) => {
            s.append("Class: ");
            s.append(c.as_str());
        },
        None => {},
    }
    match &rule.title_pattern {
        Some(t) => {
            if rule.class_pattern.is_some() {
                s.append(", ");
            }
            s.append("Title: ");
            s.append(t.as_str());
        },
        None => {},
    }
    let ghost m = rule@;
    proof {
        match (m.class_pattern, m.title_pattern) {
            (Some(c), Some(t)) => {
                assert(s@ =~= "Class: "@ + c@ + ", "@ + "Title: "@ + t@);
            },
            (Some(c), None) => {
                assert(s@ =~= "Class: "@ + c@);
            },
            (None, Some(t)) => {
                assert(s@ =~= "Title: "@ + t@);
            },
            (None, None) => {},
        }
    }
    s
}

/// "<class> (<title>)" for the application picker.
pub fn app_label(app: &WindowInfo) -> (s: String)
    ensures
        s@ == app_text(*app),
{
    let mut s = app.class.clone();
    s.append(" (");
    s.append(app.title.as_str());
    s.append(")");
    s
}

/// Which override of a rule the tab switches on or off.
#[derive(Debug, Clone, Copy, PartialEq, Eq, Structural)]
pub enum RuleOverride {
    /// Colour and size of the border of the focused thumbnail.
    ActiveBorder,
    /// Colour and size of the border of the other thumbnails.
    InactiveBorder,
    /// Colour of the name text.
    TextColor,
    /// A solid colour in place of the live preview.
    StaticPreview,
}

/// Rule `n` is rule `o` with override `which` switched on (taking the
/// profile's current values; black for a static preview) or off.
pub open spec fn override_switched(o: CustomWindowRuleModel, n: CustomWindowRuleModel, p: ProfileModel, which: RuleOverride, on: bool) -> bool {
    match which {
        RuleOverride::ActiveBorder => {
            &&& n == CustomWindowRuleModel { active_border_color: n.active_border_color, active_border_size: n.active_border_size, ..o }
            &&& if on {
                n.active_border_color matches Some(c) && c@ == p.thumbnail_active_border_color
                    && n.active_border_size == Some(p.thumbnail_active_border_size)
            } else {
                n.active_border_color is None && n.active_border_size is None
            }
        },
        RuleOverride::InactiveBorder => {
            &&& n == CustomWindowRuleModel { inactive_border_color: n.inactive_border_color, inactive_border_size: n.inactive_border_size, ..o }
            &&& if on {
                n.inactive_border_color matches Some(c) && c@ == p.thumbnail_inactive_border_color
                    && n.inactive_border_size == Some(p.thumbnail_inactive_border_size)
            } else {
                n.inactive_border_color is None && n.inactive_border_size is None
            }
        },
        RuleOverride::TextColor => {
            &&& n == CustomWindowRuleModel { text_color: n.text_color, ..o }
            &&& if on {
                n.text_color matches Some(c) && c@ == p.thumbnail_text_color
            } else {
                n.text_color is None
            }
        },
        RuleOverride::StaticPreview => {
            &&& n == CustomWindowRuleModel { preview_mode: n.preview_mode, ..o }
            &&& if on {
                n.preview_mode matches Some(PreviewMode::Static { color }) && color@ == "#000000"@
            } else {
                n.preview_mode is None
            }
        },
    }
}

/// Switch an override of rule `idx` on (from the profile's settings) or
/// off. Nothing else in the profile changes.
pub fn set_rule_override(profile: &mut Profile, idx: usize, which: RuleOverride, on: bool)
    requires
        idx < old(profile).custom_windows@.len(),
    ensures
        final(profile).custom_windows@.len() == old(profile).custom_windows@.len(),
        override_switched(old(profile)@.custom_windows[idx as int], final(profile)@.custom_windows[idx as int], old(profile)@, which, on),
        final(profile)@ == (ProfileModel {
            custom_windows: old(profile)@.custom_windows.update(idx as int, final(profile)@.custom_windows[idx as int]),
            ..old(profile)@
        }),
{
    let ghost p0 = profile@;
    let mut r = profile.custom_windows[idx].duplicate();
    match which {
        RuleOverride::ActiveBorder => {
            if on {
                r.active_border_color = Some(profile.thumbnail_active_border_color.clone());
                r.active_border_size = Some(profile.thumbnail_active_border_size);
            } else {
                r.active_border_color = None;
                r.active_border_size = None;
            }
        },
        RuleOverride::InactiveBorder => {
            if on {
                r.inactive_border_color = Some(profile.thumbnail_inactive_border_color.clone());
                r.inactive_border_size = Some(profile.thumbnail_inactive_border_size);
            } else {
                r.inactive_border_color = None;
                r.inactive_border_size = None;
            }
        },
        RuleOverride::TextColor => {
            if on {
                r.text_color = Some(profile.thumbnail_text_color.clone());
            } else {
                r.text_color = None;
            }
        },
        RuleOverride::StaticPreview => {
            if on {
                r.preview_mode = Some(PreviewMode::Static { color: owned("#000000") });
            } else {
                r.preview_mode = None;
            }
        },
    }
    let ghost r2 = r@;
    profile.custom_windows.set(idx, r);
    assert(rule_views(profile.custom_windows@) =~= p0.custom_windows.update(idx as int, r2));
    assert(profile@ =~= ProfileModel { custom_windows: p0.custom_windows.update(idx as int, r2), ..p0 });
}

/// The blank "new rule" form: no patterns, no overrides, default size.
pub open spec fn blank_rule(r: CustomWindowRule) -> bool {
    &&& r.title_pattern is None
    &&& r.class_pattern is None
    &&& r.alias@ == Seq::<char>::empty()
    &&& !r.limit
    &&& r.active_border_color is None
    &&& r.inactive_border_color is None
    &&& r.active_border_size is None
    &&& r.inactive_border_size is None
    &&& r.text_color is None
    &&& r.text_size is None
    &&& r.text_x is None
    &&& r.text_y is None
    &&& r.preview_mode is None
    &&& r.hotkey is None
}

/// State of the custom sources tab.
#[derive(Debug)]
pub struct SourcesTab {
    /// The rule being filled in by the "add" form.
    pub new_rule: CustomWindowRule,
    /// Applications offered by the picker, once listed.
    pub running_apps: Option<Vec<WindowInfo>>,
    pub selected_app_idx: Option<usize>,
    pub error_msg: Option<String>,
    /// Rows of the rule list shown expanded for editing.
    pub expanded_rows: HashSet<usize>,
}

impl Default for SourcesTab {
    /// An empty form sized like a default thumbnail, nothing listed,
    /// selected or expanded.
    fn default() -> (t: SourcesTab)
        ensures
            blank_rule(t.new_rule),
            t.new_rule.default_width == constants::THUMBNAIL_WIDTH,
            t.new_rule.default_height == constants::THUMBNAIL_HEIGHT,
            t.running_apps is None,
            t.selected_app_idx is None,
            t.error_msg is None,
            t.expanded_rows@ == Set::<usize>::empty(),
    {
        SourcesTab {
            new_rule: CustomWindowRule {
                title_pattern: None,
                class_pattern: None,
                alias: String::new(),
                default_width: constants::THUMBNAIL_WIDTH,
                default_height: constants::THUMBNAIL_HEIGHT,
                limit: false,
                active_border_color: None,
                inactive_border_color: None,
                active_border_size: None,
                inactive_border_size: None,
                text_color: None,
                text_size: None,
                text_x: None,
                text_y: None,
                preview_mode: None,
                hotkey: None,
            },
            running_apps: None,
            selected_app_idx: None,
            error_msg: None,
            expanded_rows: HashSet::new(),
        }
    }
}

fn is_eve_window_title(title: &str) -> (b: bool)
    ensures
        b == is_eve_title(title@),
{
    starts_with(title, "EVE - ") || str_eq(title, "EVE")
}

/// The applications the picker offers from a listing.
pub fn listable_applications(apps: &Vec<WindowInfo>) -> (r: Vec<WindowInfo>)
    ensures
        r@ == listable_apps(apps@),
{
    let mut out: Vec<WindowInfo> = Vec::new();
    let mut i: usize = 0;
    while i < apps.len()
        invariant
            i <= apps@.len(),
            out@ == listable_apps(apps@.subrange(0, i as int)),
        decreases apps@.len() - i,
    {
        let a = &apps[i];
        proof {
            let next = apps@.subrange(0, i + 1);
            assert(next.drop_last() =~= apps@.subrange(0, i as int));
            assert(next.last() == *a);
        }
        if !is_eve_window_title(a.title.as_str()) {
            let n = out.len();
            let repeat = n > 0 && str_eq(out[n - 1].class.as_str(), a.class.as_str())
                && str_eq(out[n - 1].title.as_str(), a.title.as_str());
            if !repeat {
                out.push(a.copy());
            }
        }
        i = i + 1;
    }
    assert(apps@.subrange(0, apps@.len() as int) =~= apps@);
    out
}

impl SourcesTab {
    /// Expand a collapsed row of the rule list, or collapse an expanded one.
    pub fn toggle_row(&mut self, idx: usize)
        ensures
            final(self).expanded_rows@ == (if old(self).expanded_rows@.contains(idx) {
                old(self).expanded_rows@.remove(idx)
            } else {
                old(self).expanded_rows@.insert(idx)
            }),
            final(self).new_rule == old(self).new_rule,
            final(self).running_apps == old(self).running_apps,
            final(self).selected_app_idx == old(self).selected_app_idx,
            final(self).error_msg == old(self).error_msg,
    {
        if self.expanded_rows.contains(&idx) {
            self.expanded_rows.remove(&idx);
        } else {
            self.expanded_rows.insert(idx);
        }
    }

    /// Delete rule `idx` from the profile; its row index is no longer
    /// marked expanded (other marks stay on their indices).
    pub fn remove_rule(&mut self, profile: &mut Profile, idx: usize)
        requires
            idx < old(profile).custom_windows@.len(),
        ensures
            final(profile)@ == (ProfileModel {
                custom_windows: old(profile)@.custom_windows.remove(idx as int),
                ..old(profile)@
            }),
            final(self).expanded_rows@ == old(self).expanded_rows@.remove(idx),
            final(self).new_rule == old(self).new_rule,
            final(self).running_apps == old(self).running_apps,
            final(self).selected_app_idx == old(self).selected_app_idx,
            final(self).error_msg == old(self).error_msg,
    {
        let ghost p0 = profile@;
        let ghost v0 = profile.custom_windows@;
        profile.custom_windows.remove(idx);
        assert(rule_views(profile.custom_windows@) =~= rule_views(v0).remove(idx as int));
        assert(profile@ =~= ProfileModel { custom_windows: p0.custom_windows.remove(idx as int), ..p0 });
        self.expanded_rows.remove(&idx);
    }

    /// Take in a listing of running applications: on success the picker
    /// offers the listable ones and the error is cleared; on failure the
    /// error is shown and the previous listing kept.
    pub fn refresh_apps(&mut self, listed: Result<Vec<WindowInfo>, String>)
        ensures
            match listed {
                Ok(apps) => (final(self).running_apps matches Some(v) && v@ == listable_apps(apps@))
                    && final(self).error_msg is None,
                Err(e) => final(self).running_apps == old(self).running_apps
                    && (final(self).error_msg matches Some(m) && m@ == "Failed to list apps: "@ + e@),
            },
            final(self).new_rule == old(self).new_rule,
            final(self).selected_app_idx == old(self).selected_app_idx,
            final(self).expanded_rows@ == old(self).expanded_rows@,
    {
        match listed {
            Ok(apps) => {
                self.running_apps = Some(listable_applications(&apps));
                self.error_msg = None;
            },
            Err(e) => {
                let mut m = owned("Failed to list apps: ");
                m.append(e.as_str());
                self.error_msg = Some(m);
            },
        }
    }

    /// The picker's caption: the selected application, or an invitation
    /// to pick one.
    pub fn picker_label(&self) -> (s: String)
        ensures
            s@ == (match (self.running_apps, self.selected_app_idx) {
                (Some(apps), Some(i)) => if i < apps@.len() {
                    app_text(apps@[i as int])
                } else {
                    "Select from running applications..."@
                },
                _ => "Select from running applications..."@,
            }),
    {
        match (&self.running_apps, self.selected_app_idx) {
            (Some(apps), Some(i)) => {
                if i < apps.len() {
                    app_label(&apps[i])
                } else {
                    owned("Select from running applications...")
                }
            },
            _ => owned("Select from running applications..."),
        }
    }

    /// Pick application `idx` of the listing: the form takes its class as
    /// display name and class pattern, with no title pattern.
    pub fn select_app(&mut self, idx: usize)
        requires
            old(self).running_apps matches Some(v) && idx < v@.len(),
        ensures
            final(self).selected_app_idx == Some(idx),
            old(self).running_apps matches Some(v) && {
                &&& final(self).new_rule.alias@ == v@[idx as int].class@
                &&& final(self).new_rule.class_pattern matches Some(c) && c@ == v@[idx as int].class@
            },
            final(self).new_rule.title_pattern is None,
            final(self).new_rule@ == (CustomWindowRuleModel {
                alias: final(self).new_rule.alias,
                class_pattern: final(self).new_rule.class_pattern,
                title_pattern: None,
                ..old(self).new_rule@
            }),
            final(self).running_apps == old(self).running_apps,
            final(self).error_msg == old(self).error_msg,
            final(self).expanded_rows@ == old(self).expanded_rows@,
    {
        let class = match &self.running_apps {
            Some(apps) => apps[idx].class.clone(),
            None => String::new(),
        };
        self.selected_app_idx = Some(idx);
        self.new_rule.alias = class.clone();
        self.new_rule.class_pattern = Some(class);
        self.new_rule.title_pattern = None;
    }

    /// The form can be added: it has a display name and a class or title
    /// pattern.
    pub fn new_rule_is_valid(&self) -> (b: bool)
        ensures
            b == (self.new_rule.alias@.len() > 0
                && (self.new_rule.class_pattern is Some || self.new_rule.title_pattern is Some)),
    {
        self.new_rule.alias.unicode_len() > 0
            && (self.new_rule.class_pattern.is_some() || self.new_rule.title_pattern.is_some())
    }

    /// Add the rule of the form, sized like the profile's thumbnails, to
    /// the profile and clear the form (its size stays). A form that is not
    /// valid adds nothing. Returns whether a rule was added.
    pub fn add_source(&mut self, profile: &mut Profile) -> (added: bool)
        ensures
            added == old(self).new_rule_is_valid_spec(),
            added ==> {
                &&& final(profile)@ == (ProfileModel {
                    custom_windows: old(profile)@.custom_windows.push(CustomWindowRuleModel {
                        default_width: old(profile)@.thumbnail_default_width,
                        default_height: old(profile)@.thumbnail_default_height,
                        ..old(self).new_rule@
                    }),
                    ..old(profile)@
                })
                &&& blank_rule(final(self).new_rule)
                &&& final(self).new_rule.default_width == old(profile)@.thumbnail_default_width
                &&& final(self).new_rule.default_height == old(profile)@.thumbnail_default_height
            },
            !added ==> final(profile)@ == old(profile)@ && final(self).new_rule == old(self).new_rule,
            final(self).running_apps == old(self).running_apps,
            final(self).selected_app_idx == old(self).selected_app_idx,
            final(self).error_msg == old(self).error_msg,
            final(self).expanded_rows@ == old(self).expanded_rows@,
    {
        if !self.new_rule_is_valid() {
            return false;
        }
        let ghost p0 = profile@;
        self.new_rule.default_width = profile.thumbnail_default_width;
        self.new_rule.default_height = profile.thumbnail_default_height;
        let added = self.new_rule.duplicate();
        let ghost a = added@;
        profile.custom_windows.push(added);
        assert(rule_views(profile.custom_windows@) =~= p0.custom_windows.push(a));
        assert(profile@ =~= ProfileModel { custom_windows: p0.custom_windows.push(a), ..p0 });
        self.new_rule.alias = String::new();
        self.new_rule.class_pattern = None;
        self.new_rule.title_pattern = None;
        self.new_rule.limit = false;
        self.new_rule.active_border_color = None;
        self.new_rule.inactive_border_color = None;
        self.new_rule.active_border_size = None;
        self.new_rule.inactive_border_size = None;
        self.new_rule.text_color = None;
        self.new_rule.text_size = None;
        self.new_rule.text_x = None;
        self.new_rule.text_y = None;
        self.new_rule.preview_mode = None;
        self.new_rule.hotkey = None;
        true
    }

    /// Whether the form can be added (see `new_rule_is_valid`).
    pub open spec fn new_rule_is_valid_spec(&self) -> bool {
        self.new_rule.alias@.len() > 0 && (self.new_rule.class_pattern is Some || self.new_rule.title_pattern is Some)
    }
}

} // verus!
