//! The profile selector of the manager: choosing a profile to load, and
//! the dialogs that create, copy, rename and delete profiles.

use vstd::prelude::*;
use crate::manager_ui::{ProfileAction, ProfileSelector};
use crate::name_map::Duplicate;
use crate::profile::{Config, Profile, ProfileModel, profile_views, spec_default_profile};
use crate::text::owned;

verus! {

/// How a profile is listed: "<name> - <description>", or the name alone
/// when there is no description.
pub open spec fn profile_list_text(p: ProfileModel) -> Seq<char> {
    if p.profile_description.len() == 0 {
        p.profile_name
    } else {
        p.profile_name + " - "@ + p.profile_description
    }
}

/// The entry of a profile in the dropdown.
pub fn profile_label(p: &Profile) -> (s: String)
    ensures
        s@ == profile_list_text(p@),
{
    if p.profile_description.unicode_len() == 0 {
        p.profile_name.clone()
    } else {
        let mut s = p.profile_name.clone();
        s.append(" - ");
        s.append(p.profile_description.as_str());
        s
    }
}

impl ProfileSelector {
    /// A pending choice equal to the active profile is no longer pending.
    pub fn sync_pending(&mut self, selected_idx: usize)
        ensures
            final(self).pending_profile_idx == (if old(self).pending_profile_idx == Some(selected_idx) {
                None
            } else {
                old(self).pending_profile_idx
            }),
            *final(self) == (ProfileSelector { pending_profile_idx: final(self).pending_profile_idx, ..*old(self) }),
    {
        if self.pending_profile_idx == Some(selected_idx) {
            self.pending_profile_idx = None;
        }
    }

    /// The profile the dropdown shows: the pending choice, else the active
    /// one.
    pub fn displayed_index(&self, selected_idx: usize) -> (i: usize)
        ensures
            i == match self.pending_profile_idx {
                Some(p) => p,
                None => selected_idx,
            },
    {
        match self.pending_profile_idx {
            Some(p) => p,
            None => selected_idx,
        }
    }

    /// Choose profile `idx` in the dropdown (it loads only on "Load").
    pub fn pick(&mut self, idx: usize)
        ensures
            *final(self) == (ProfileSelector { pending_profile_idx: Some(idx), ..*old(self) }),
    {
        self.pending_profile_idx = Some(idx);
    }

    /// "Load" is offered when another profile than the active one is chosen.
    pub fn can_load(&self, selected_idx: usize) -> (b: bool)
        ensures
            b == (self.pending_profile_idx is Some && self.pending_profile_idx != Some(selected_idx)),
    {
        match self.pending_profile_idx {
            Some(p) => p != selected_idx,
            None => false,
        }
    }

    /// "Load": the chosen profile becomes the active one and is selected in
    /// the configuration. Without a choice to load nothing happens.
    pub fn load(&mut self, config: &mut Config, selected_idx: &mut usize) -> (action: ProfileAction)
        requires
            old(self).pending_profile_idx matches Some(p) ==> p < old(config).profiles@.len(),
        ensures
            match old(self).pending_profile_idx {
                Some(p) => if p != *old(selected_idx) {
                    &&& action == ProfileAction::SwitchProfile
                    &&& *final(selected_idx) == p
                    &&& final(config).global.selected_profile@ == old(config).profiles@[p as int].profile_name@
                    &&& final(config).global.window_width == old(config).global.window_width
                    &&& final(config).global.window_height == old(config).global.window_height
                    &&& final(self).pending_profile_idx is None
                } else {
                    action == ProfileAction::Nothing && *final(selected_idx) == *old(selected_idx)
                        && final(config).global == old(config).global && final(self).pending_profile_idx == old(self).pending_profile_idx
                },
                None => action == ProfileAction::Nothing && *final(selected_idx) == *old(selected_idx)
                    && final(config).global == old(config).global && final(self).pending_profile_idx is None,
            },
            profile_views(final(config).profiles@) == profile_views(old(config).profiles@),
            *final(self) == (ProfileSelector { pending_profile_idx: final(self).pending_profile_idx, ..*old(self) }),
    {
        match self.pending_profile_idx {
            Some(p) => {
                if p != *selected_idx {
                    *selected_idx = p;
                    config.global.selected_profile = config.profiles[p].profile_name.clone();
                    self.pending_profile_idx = None;
                    ProfileAction::SwitchProfile
                } else {
                    ProfileAction::Nothing
                }
            },
            None => ProfileAction::Nothing,
        }
    }

    /// The profile the management buttons act on: the one the dropdown shows.
    pub open spec fn button_target(&self, selected_idx: usize) -> usize {
        match self.pending_profile_idx {
            Some(p) => p,
            None => selected_idx,
        }
    }

    /// "New": the dialog opens with empty fields.
    pub fn open_new(&mut self)
        ensures
            final(self).show_new_dialog,
            final(self).edit_profile_name@ == Seq::<char>::empty(),
            final(self).edit_profile_desc@ == Seq::<char>::empty(),
            final(self).action_target_idx is None,
            final(self).show_duplicate_dialog == old(self).show_duplicate_dialog,
            final(self).show_edit_dialog == old(self).show_edit_dialog,
            final(self).show_delete_confirm == old(self).show_delete_confirm,
            final(self).pending_profile_idx == old(self).pending_profile_idx,
    {
        self.show_new_dialog = true;
        self.edit_profile_name = String::new();
        self.edit_profile_desc = String::new();
        self.action_target_idx = None;
    }

    /// "Duplicate": the dialog opens for the shown profile, proposing
    /// "<name> (copy)" and its description.
    pub fn open_duplicate(&mut self, config: &Config, selected_idx: usize)
        requires
            old(self).button_target(selected_idx) < config.profiles@.len(),
        ensures
            final(self).show_duplicate_dialog,
            final(self).edit_profile_name@ == config.profiles@[old(self).button_target(selected_idx) as int].profile_name@
                + " (copy)"@,
            final(self).edit_profile_desc@ == config.profiles@[old(self).button_target(selected_idx) as int].profile_description@,
            final(self).action_target_idx == Some(old(self).button_target(selected_idx)),
            final(self).show_new_dialog == old(self).show_new_dialog,
            final(self).show_edit_dialog == old(self).show_edit_dialog,
            final(self).show_delete_confirm == old(self).show_delete_confirm,
            final(self).pending_profile_idx == old(self).pending_profile_idx,
    {
        let t = self.displayed_index(selected_idx);
        self.show_duplicate_dialog = true;
        let mut name = config.profiles[t].profile_name.clone();
        name.append(" (copy)");
        self.edit_profile_name = name;
        self.edit_profile_desc = config.profiles[t].profile_description.clone();
        self.action_target_idx = Some(t);
    }

    /// "Edit": the dialog opens with the shown profile's name and
    /// description.
    pub fn open_edit(&mut self, config: &Config, selected_idx: usize)
        requires
            old(self).button_target(selected_idx) < config.profiles@.len(),
        ensures
            final(self).show_edit_dialog,
            final(self).edit_profile_name@ == config.profiles@[old(self).button_target(selected_idx) as int].profile_name@,
            final(self).edit_profile_desc@ == config.profiles@[old(self).button_target(selected_idx) as int].profile_description@,
            final(self).action_target_idx == Some(old(self).button_target(selected_idx)),
            final(self).show_new_dialog == old(self).show_new_dialog,
            final(self).show_duplicate_dialog == old(self).show_duplicate_dialog,
            final(self).show_delete_confirm == old(self).show_delete_confirm,
            final(self).pending_profile_idx == old(self).pending_profile_idx,
    {
        let t = self.displayed_index(selected_idx);
        self.show_edit_dialog = true;
        self.edit_profile_name = config.profiles[t].profile_name.clone();
        self.edit_profile_desc = config.profiles[t].profile_description.clone();
        self.action_target_idx = Some(t);
    }

    /// "Delete": asks for confirmation about the shown profile, unless it
    /// is the only one (the last profile cannot be deleted). Returns
    /// whether the confirmation opened.
    pub fn open_delete(&mut self, config: &Config, selected_idx: usize) -> (opened: bool)
        ensures
            opened == (config.profiles@.len() > 1),
            opened ==> final(self).show_delete_confirm
                && final(self).action_target_idx == Some(old(self).button_target(selected_idx)),
            !opened ==> *final(self) == *old(self),
            final(self).show_new_dialog == old(self).show_new_dialog,
            final(self).show_duplicate_dialog == old(self).show_duplicate_dialog,
            final(self).show_edit_dialog == old(self).show_edit_dialog,
            final(self).pending_profile_idx == old(self).pending_profile_idx,
            final(self).edit_profile_name == old(self).edit_profile_name,
            final(self).edit_profile_desc == old(self).edit_profile_desc,
    {
        if config.profiles.len() > 1 {
            self.show_delete_confirm = true;
            self.action_target_idx = Some(self.displayed_index(selected_idx));
            true
        } else {
            false
        }
    }

    /// The profile a dialog acts on: its target, else the active one.
    pub open spec fn dialog_target(&self, selected_idx: usize) -> usize {
        match self.action_target_idx {
            Some(t) => t,
            None => selected_idx,
        }
    }

    /// "Create" in the new-profile dialog: a profile with the default
    /// settings (`detected_font` as its text font), the typed name and
    /// description is added. An empty name creates nothing.
    pub fn confirm_new(&mut self, config: &mut Config, detected_font: Option<String>) -> (action: ProfileAction)
        ensures
            old(self).edit_profile_name@.len() > 0 ==> {
                &&& action == ProfileAction::ProfileCreated
                &&& profile_views(final(config).profiles@) == profile_views(old(config).profiles@).push(
                    spec_default_profile(
                        old(self).edit_profile_name@,
                        old(self).edit_profile_desc@,
                        match detected_font { Some(f) => f@, None => Seq::<char>::empty() },
                    ),
                )
                &&& !final(self).show_new_dialog
            },
            old(self).edit_profile_name@.len() == 0 ==> action == ProfileAction::Nothing
                && profile_views(final(config).profiles@) == profile_views(old(config).profiles@)
                && final(self).show_new_dialog == old(self).show_new_dialog,
            final(config).global == old(config).global,
            *final(self) == (ProfileSelector { show_new_dialog: final(self).show_new_dialog, ..*old(self) }),
    {
        if self.edit_profile_name.unicode_len() == 0 {
            return ProfileAction::Nothing;
        }
        let ghost v0 = config.profiles@;
        let p = Profile::default_with_name(self.edit_profile_name.clone(), self.edit_profile_desc.clone(), detected_font);
        let ghost pv = p@;
        config.profiles.push(p);
        assert(profile_views(config.profiles@) =~= profile_views(v0).push(pv));
        self.show_new_dialog = false;
        ProfileAction::ProfileCreated
    }

    /// "Duplicate" in its dialog: a copy of the target profile, under the
    /// typed name and description, is added. An empty name adds nothing.
    pub fn confirm_duplicate(&mut self, config: &mut Config, selected_idx: usize) -> (action: ProfileAction)
        requires
            old(self).dialog_target(selected_idx) < old(config).profiles@.len(),
        ensures
            old(self).edit_profile_name@.len() > 0 ==> {
                &&& action == ProfileAction::ProfileCreated
                &&& profile_views(final(config).profiles@) == profile_views(old(config).profiles@).push(ProfileModel {
                    profile_name: old(self).edit_profile_name@,
                    profile_description: old(self).edit_profile_desc@,
                    ..old(config).profiles@[old(self).dialog_target(selected_idx) as int]@
                })
                &&& !final(self).show_duplicate_dialog
            },
            old(self).edit_profile_name@.len() == 0 ==> action == ProfileAction::Nothing
                && profile_views(final(config).profiles@) == profile_views(old(config).profiles@)
                && final(self).show_duplicate_dialog == old(self).show_duplicate_dialog,
            final(config).global == old(config).global,
            *final(self) == (ProfileSelector { show_duplicate_dialog: final(self).show_duplicate_dialog, ..*old(self) }),
    {
        if self.edit_profile_name.unicode_len() == 0 {
            return ProfileAction::Nothing;
        }
        let t = match self.action_target_idx {
            Some(t) => t,
            None => selected_idx,
        };
        let ghost v0 = config.profiles@;
        let mut p = config.profiles[t].duplicate();
        p.profile_name = self.edit_profile_name.clone();
        p.profile_description = self.edit_profile_desc.clone();
        let ghost pv = p@;
        assert(pv =~= ProfileModel {
            profile_name: self.edit_profile_name@,
            profile_description: self.edit_profile_desc@,
            ..v0[t as int]@
        });
        config.profiles.push(p);
        assert(profile_views(config.profiles@) =~= profile_views(v0).push(pv));
        self.show_duplicate_dialog = false;
        ProfileAction::ProfileCreated
    }

    /// "Save" in the edit dialog: the target profile takes the typed name
    /// and description; when it is the active profile the configuration
    /// selects it under its new name. An empty name changes nothing.
    pub fn confirm_edit(&mut self, config: &mut Config, selected_idx: usize) -> (action: ProfileAction)
        requires
            old(self).dialog_target(selected_idx) < old(config).profiles@.len(),
        ensures
            old(self).edit_profile_name@.len() > 0 ==> {
                let t = old(self).dialog_target(selected_idx) as int;
                &&& action == ProfileAction::ProfileUpdated
                &&& profile_views(final(config).profiles@) == profile_views(old(config).profiles@).update(t, ProfileModel {
                    profile_name: old(self).edit_profile_name@,
                    profile_description: old(self).edit_profile_desc@,
                    ..old(config).profiles@[t]@
                })
                &&& if t == selected_idx {
                    final(config).global.selected_profile@ == old(self).edit_profile_name@
                        && final(config).global.window_width == old(config).global.window_width
                        && final(config).global.window_height == old(config).global.window_height
                } else {
                    final(config).global == old(config).global
                }
                &&& !final(self).show_edit_dialog
            },
            old(self).edit_profile_name@.len() == 0 ==> action == ProfileAction::Nothing
                && profile_views(final(config).profiles@) == profile_views(old(config).profiles@)
                && final(config).global == old(config).global
                && final(self).show_edit_dialog == old(self).show_edit_dialog,
            *final(self) == (ProfileSelector { show_edit_dialog: final(self).show_edit_dialog, ..*old(self) }),
    {
        if self.edit_profile_name.unicode_len() == 0 {
            return ProfileAction::Nothing;
        }
        let t = match self.action_target_idx {
            Some(t) => t,
            None => selected_idx,
        };
        let ghost v0 = config.profiles@;
        let mut p = config.profiles[t].duplicate();
        p.profile_name = self.edit_profile_name.clone();
        p.profile_description = self.edit_profile_desc.clone();
        let ghost pv = p@;
        assert(pv =~= ProfileModel {
            profile_name: self.edit_profile_name@,
            profile_description: self.edit_profile_desc@,
            ..v0[t as int]@
        });
        config.profiles.set(t, p);
        assert(profile_views(config.profiles@) =~= profile_views(v0).update(t as int, pv));
        if t == selected_idx {
            config.global.selected_profile = self.edit_profile_name.clone();
        }
        self.show_edit_dialog = false;
        ProfileAction::ProfileUpdated
    }

    /// "Delete" in the confirmation: the target profile goes. The active
    /// index follows its profile when an earlier one was deleted; when the
    /// active profile itself was deleted, the one now at its place (or the
    /// new last one) becomes active and is selected by name.
    pub fn confirm_delete(&mut self, config: &mut Config, selected_idx: &mut usize) -> (action: ProfileAction)
        requires
            old(self).dialog_target(*old(selected_idx)) < old(config).profiles@.len(),
            old(self).dialog_target(*old(selected_idx)) == *old(selected_idx) ==> old(config).profiles@.len() > 1,
        ensures
            ({
                let t = old(self).dialog_target(*old(selected_idx)) as int;
                let a = *old(selected_idx) as int;
                let rest = profile_views(old(config).profiles@).remove(t);
                &&& action == ProfileAction::ProfileDeleted
                &&& profile_views(final(config).profiles@) == rest
                &&& if t < a {
                    *final(selected_idx) == a - 1 && final(config).global == old(config).global
                } else if t == a {
                    &&& *final(selected_idx) == (if a >= rest.len() { rest.len() - 1 } else { a })
                    &&& final(config).global.selected_profile@ == rest[*final(selected_idx) as int].profile_name
                    &&& final(config).global.window_width == old(config).global.window_width
                    &&& final(config).global.window_height == old(config).global.window_height
                } else {
                    *final(selected_idx) == a && final(config).global == old(config).global
                }
            }),
            !final(self).show_delete_confirm,
            *final(self) == (ProfileSelector { show_delete_confirm: false, ..*old(self) }),
    {
        let t = match self.action_target_idx {
            Some(t) => t,
            None => *selected_idx,
        };
        let ghost v0 = config.profiles@;
        config.profiles.remove(t);
        assert(profile_views(config.profiles@) =~= profile_views(v0).remove(t as int));
        if t < *selected_idx {
            *selected_idx = *selected_idx - 1;
        } else if t == *selected_idx {
            if *selected_idx >= config.profiles.len() {
                *selected_idx = config.profiles.len() - 1;
            }
            config.global.selected_profile = config.profiles[*selected_idx].profile_name.clone();
        }
        self.show_delete_confirm = false;
        ProfileAction::ProfileDeleted
    }

    /// After a profile was switched, created, deleted or updated nothing
    /// stays pending or targeted.
    pub fn after_action(&mut self, action: ProfileAction)
        ensures
            action != ProfileAction::Nothing ==> *final(self) == (ProfileSelector {
                pending_profile_idx: None,
                action_target_idx: None,
                ..*old(self)
            }),
            action == ProfileAction::Nothing ==> *final(self) == *old(self),
    {
        match action {
            ProfileAction::Nothing => {},
            _ => {
                self.pending_profile_idx = None;
                self.action_target_idx = None;
            },
        }
    }
}

} // verus!
