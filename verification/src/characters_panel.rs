//! Edits made in the manager's characters panel: the cycle groups (create,
//! copy, rename, delete, reorder their members, add characters picked from
//! a list) and the characters themselves (remove one, switch its visual
//! overrides on and off).

use vstd::prelude::*;
use vstd::set_lib::{lemma_int_range, lemma_len_subset, lemma_map_size, lemma_map_size_bound, set_int_range};
use crate::domain::{CharacterSettings, Dimensions, PreviewMode};
use crate::hotkey::string_views;
use crate::manager_ui::{CachedOverrides, CharactersState, ThemeDefaults, VisualSettingsState};
use crate::name_map::NameMap;
use crate::profile::{is_custom_alias, rule_views};
use crate::name_map::Duplicate;
use crate::profile::{CycleGroup, CycleGroupModel, Profile, ProfileModel, group_views};
use crate::manager_ui::{group_hotkey_slot};
use crate::text::{
    append_decimal_usize, decimal, lemma_decimal_injective, lemma_parse_usize_of_decimal, lemma_split_on_append,
    lemma_split_on_plain, lemma_split_on_separator, owned, split_on, str_eq,
};

verus! {

/// The n-th name offered to a new group: "New Group", then
/// "New Group 2", "New Group 3", ...
pub open spec fn new_group_candidate(k: nat) -> Seq<char> {
    if k <= 1 {
        "New Group"@
    } else {
        "New Group "@ + decimal(k)
    }
}

/// Whether some group is named `n`.
pub open spec fn group_name_taken(groups: Seq<CycleGroupModel>, n: Seq<char>) -> bool {
    exists|i: int| 0 <= i < groups.len() && #[trigger] groups[i].name == n
}

/// Candidate `k` is the first one that no group has taken.
pub open spec fn is_first_free_candidate(groups: Seq<CycleGroupModel>, k: nat) -> bool {
    &&& k >= 1
    &&& !group_name_taken(groups, new_group_candidate(k))
    &&& forall|j: nat| 1 <= j < k ==> group_name_taken(groups, #[trigger] new_group_candidate(j))
}

proof fn lemma_candidates_distinct(a: nat, b: nat)
    requires
        a >= 1,
        b >= 1,
        new_group_candidate(a) == new_group_candidate(b),
    ensures
        a == b,
{
    reveal_strlit("New Group");
    reveal_strlit("New Group ");
    if a >= 2 && b >= 2 {
        let p = "New Group "@;
        assert(new_group_candidate(a).subrange(10, new_group_candidate(a).len() as int) =~= decimal(a));
        assert(new_group_candidate(b).subrange(10, new_group_candidate(b).len() as int) =~= decimal(b));
        lemma_decimal_injective(a, b);
    } else if a >= 2 {
        crate::text::lemma_decimal_value_of_decimal(a);
        assert(new_group_candidate(a).len() > 9);
    } else if b >= 2 {
        crate::text::lemma_decimal_value_of_decimal(b);
        assert(new_group_candidate(b).len() > 9);
    }
}

/// Among the first `groups.len() + 1` candidates one is free: there are
/// more candidates than groups.
proof fn lemma_some_candidate_free(groups: Seq<CycleGroupModel>)
    ensures
        exists|k: nat| 1 <= k <= groups.len() + 1 && !group_name_taken(groups, #[trigger] new_group_candidate(k)),
{
    let n = groups.len() as int;
    if forall|k: nat| 1 <= k <= n + 1 ==> group_name_taken(groups, #[trigger] new_group_candidate(k)) {
        let ks = set_int_range(1, n + 2);
        lemma_int_range(1, n + 2);
        let f = |k: int| new_group_candidate(k as nat);
        assert(vstd::relations::injective_on(f, ks)) by {
            assert forall|a: int, b: int| ks.contains(a) && ks.contains(b) && #[trigger] f(a) == #[trigger] f(b) implies a == b by {
                lemma_candidates_distinct(a as nat, b as nat);
            };
        };
        let ys = ks.map(f);
        lemma_map_size(ks, ys, f);
        let idx = set_int_range(0, n);
        lemma_int_range(0, n);
        let g = |i: int| groups[i].name;
        let names = idx.map(g);
        lemma_map_size_bound(idx, names, g);
        assert(ys.subset_of(names)) by {
            assert forall|y: Seq<char>| ys.contains(y) implies names.contains(y) by {
                let k = choose|k: int| ks.contains(k) && f(k) == y;
                assert(group_name_taken(groups, new_group_candidate(k as nat)));
                let i = choose|i: int| 0 <= i < groups.len() && #[trigger] groups[i].name == new_group_candidate(k as nat);
                assert(idx.contains(i) && g(i) == y);
            };
        };
        lemma_len_subset(ys, names);
        assert(false);
    }
}

fn group_name_in_use(groups: &Vec<CycleGroup>, name: &str) -> (b: bool)
    ensures
        b == group_name_taken(group_views(groups@), name@),
{
    let mut i: usize = 0;
    while i < groups.len()
        invariant
            i <= groups@.len(),
            forall|j: int| 0 <= j < i ==> #[trigger] groups@[j].name@ != name@,
        decreases groups@.len() - i,
    {
        if str_eq(groups[i].name.as_str(), name) {
            assert(group_views(groups@)[i as int].name == name@);
            return true;
        }
        i = i + 1;
    }
    assert forall|j: int| 0 <= j < group_views(groups@).len() implies #[trigger] group_views(groups@)[j].name != name@ by {
        assert(groups@[j].name@ != name@);
    };
    false
}

fn candidate_name(k: usize) -> (s: String)
    requires
        k >= 1,
    ensures
        s@ == new_group_candidate(k as nat),
{
    if k == 1 {
        owned("New Group")
    } else {
        let mut s = owned("New Group ");
        append_decimal_usize(&mut s, k);
        s
    }
}

/// The name for a new group: the first of "New Group", "New Group 2",
/// "New Group 3", ... that no group has.
pub fn fresh_group_name(groups: &Vec<CycleGroup>) -> (s: String)
    requires
        groups@.len() < usize::MAX,
    ensures
        exists|k: nat| is_first_free_candidate(group_views(groups@), k) && s@ == new_group_candidate(k),
{
    let ghost gs = group_views(groups@);
    let n = groups.len();
    let mut counter: usize = 1;
    let mut name = candidate_name(1);
    proof {
        lemma_some_candidate_free(gs);
    }
    while group_name_in_use(groups, name.as_str())
        invariant
            1 <= counter <= n + 1,
            n == groups@.len(),
            n < usize::MAX,
            gs == group_views(groups@),
            name@ == new_group_candidate(counter as nat),
            forall|j: nat| 1 <= j < counter ==> group_name_taken(gs, #[trigger] new_group_candidate(j)),
            exists|k: nat| 1 <= k <= n + 1 && !group_name_taken(gs, #[trigger] new_group_candidate(k)),
        decreases n + 1 - counter,
    {
        proof {
            if counter == n + 1 {
                let k = choose|k: nat| 1 <= k <= n + 1 && !group_name_taken(gs, #[trigger] new_group_candidate(k));
                if k < counter {
                    assert(group_name_taken(gs, new_group_candidate(k)));
                }
                assert(false);
            }
        }
        counter = counter + 1;
        name = candidate_name(counter);
    }
    assert(is_first_free_candidate(gs, counter as nat));
    name
}

/// The model of the group a profile without groups gets.
pub open spec fn default_group_model() -> CycleGroupModel {
    CycleGroupModel { name: "Default"@, characters: Seq::empty(), hotkey_forward: None, hotkey_backward: None }
}

/// The fields of the panel state other than the selected group and the
/// rename box are those of `b`.
pub open spec fn same_popup_state(a: CharactersState, b: CharactersState) -> bool {
    &&& a.show_add_characters_popup == b.show_add_characters_popup
    &&& a.character_selections@ == b.character_selections@
    &&& a.expanded_rows@ == b.expanded_rows@
    &&& a.cached_overrides@ == b.cached_overrides@
}

impl CharactersState {
    /// Before the panel is drawn: a selection past the last group falls
    /// back to the first, and a profile without groups gets the default
    /// one. Returns whether the profile changed.
    pub fn prepare_groups(&mut self, profile: &mut Profile) -> (changed: bool)
        ensures
            changed == (old(profile)@.cycle_groups.len() == 0),
            changed ==> final(profile)@ == (ProfileModel { cycle_groups: seq![default_group_model()], ..old(profile)@ }),
            !changed ==> final(profile)@ == old(profile)@,
            final(self).selected_cycle_group_index == (if old(self).selected_cycle_group_index
                >= old(profile)@.cycle_groups.len() {
                0
            } else {
                old(self).selected_cycle_group_index
            }),
            final(self).selected_cycle_group_index < final(profile)@.cycle_groups.len(),
            final(self).renaming_group_idx == old(self).renaming_group_idx,
            final(self).rename_buffer@ == old(self).rename_buffer@,
            same_popup_state(*final(self), *old(self)),
    {
        if self.selected_cycle_group_index >= profile.cycle_groups.len() {
            self.selected_cycle_group_index = 0;
        }
        if profile.cycle_groups.len() == 0 {
            let ghost p0 = profile@;
            profile.cycle_groups.push(CycleGroup::default_group());
            assert(group_views(profile.cycle_groups@) =~= seq![default_group_model()]);
            assert(profile@ =~= ProfileModel { cycle_groups: seq![default_group_model()], ..p0 });
            true
        } else {
            false
        }
    }

    /// Start renaming the selected group: the rename box holds its name.
    pub fn begin_rename(&mut self, profile: &Profile)
        requires
            old(self).selected_cycle_group_index < profile.cycle_groups@.len(),
        ensures
            final(self).renaming_group_idx == Some(old(self).selected_cycle_group_index),
            final(self).rename_buffer@ == profile@.cycle_groups[old(self).selected_cycle_group_index as int].name,
            final(self).selected_cycle_group_index == old(self).selected_cycle_group_index,
            same_popup_state(*final(self), *old(self)),
    {
        let i = self.selected_cycle_group_index;
        self.renaming_group_idx = Some(i);
        self.rename_buffer = profile.cycle_groups[i].name.clone();
    }

    /// Leave the rename box: `commit` (Enter, or focus lost) gives the
    /// group the box's text, otherwise (Escape) the name stays. A rename of
    /// a group that no longer exists is dropped. Returns whether the
    /// profile changed.
    pub fn finish_rename(&mut self, profile: &mut Profile, commit: bool) -> (changed: bool)
        ensures
            final(self).renaming_group_idx is None,
            changed == (commit && (old(self).renaming_group_idx matches Some(i) && i < old(profile)@.cycle_groups.len())),
            changed ==> (old(self).renaming_group_idx matches Some(i) && final(profile)@ == (ProfileModel {
                cycle_groups: old(profile)@.cycle_groups.update(
                    i as int,
                    CycleGroupModel { name: old(self).rename_buffer@, ..old(profile)@.cycle_groups[i as int] },
                ),
                ..old(profile)@
            })),
            !changed ==> final(profile)@ == old(profile)@,
            final(self).selected_cycle_group_index == old(self).selected_cycle_group_index,
            final(self).rename_buffer@ == old(self).rename_buffer@,
            same_popup_state(*final(self), *old(self)),
    {
        let ghost p0 = profile@;
        let target = self.renaming_group_idx;
        self.renaming_group_idx = None;
        match target {
            Some(i) => {
                if i < profile.cycle_groups.len() && commit {
                    let mut g = profile.cycle_groups[i].duplicate();
                    g.name = self.rename_buffer.clone();
                    let ghost g2 = g@;
                    profile.cycle_groups.set(i, g);
                    assert(group_views(profile.cycle_groups@) =~= p0.cycle_groups.update(i as int, g2));
                    assert(profile@ =~= ProfileModel { cycle_groups: p0.cycle_groups.update(i as int, g2), ..p0 });
                    true
                } else {
                    false
                }
            },
            None => false,
        }
    }

    /// Add an empty group under the first free "New Group" name and select
    /// it.
    pub fn add_group(&mut self, profile: &mut Profile)
        requires
            old(profile).cycle_groups@.len() < usize::MAX,
        ensures
            final(profile)@.cycle_groups.len() == old(profile)@.cycle_groups.len() + 1,
            exists|k: nat| is_first_free_candidate(old(profile)@.cycle_groups, k) && final(profile)@ == (ProfileModel {
                cycle_groups: old(profile)@.cycle_groups.push(
                    CycleGroupModel { name: new_group_candidate(k), ..default_group_model() },
                ),
                ..old(profile)@
            }),
            final(self).selected_cycle_group_index == old(profile)@.cycle_groups.len(),
            final(self).renaming_group_idx == old(self).renaming_group_idx,
            final(self).rename_buffer@ == old(self).rename_buffer@,
            same_popup_state(*final(self), *old(self)),
    {
        let ghost p0 = profile@;
        let name = fresh_group_name(&profile.cycle_groups);
        let mut g = CycleGroup::default_group();
        g.name = name;
        let ghost g2 = g@;
        profile.cycle_groups.push(g);
        assert(group_views(profile.cycle_groups@) =~= p0.cycle_groups.push(g2));
        assert(profile@ =~= ProfileModel { cycle_groups: p0.cycle_groups.push(g2), ..p0 });
        self.selected_cycle_group_index = profile.cycle_groups.len() - 1;
    }

    /// Add a copy of the selected group, named "<name> (Copy)", and select
    /// it.
    pub fn duplicate_group(&mut self, profile: &mut Profile)
        requires
            old(self).selected_cycle_group_index < old(profile).cycle_groups@.len(),
            old(profile).cycle_groups@.len() < usize::MAX,
        ensures
            final(profile)@ == (ProfileModel {
                cycle_groups: old(profile)@.cycle_groups.push(CycleGroupModel {
                    name: old(profile)@.cycle_groups[old(self).selected_cycle_group_index as int].name + " (Copy)"@,
                    ..old(profile)@.cycle_groups[old(self).selected_cycle_group_index as int]
                }),
                ..old(profile)@
            }),
            final(self).selected_cycle_group_index == old(profile)@.cycle_groups.len(),
            final(self).renaming_group_idx == old(self).renaming_group_idx,
            final(self).rename_buffer@ == old(self).rename_buffer@,
            same_popup_state(*final(self), *old(self)),
    {
        let ghost p0 = profile@;
        let mut g = profile.cycle_groups[self.selected_cycle_group_index].duplicate();
        g.name.append(" (Copy)");
        let ghost g2 = g@;
        profile.cycle_groups.push(g);
        assert(group_views(profile.cycle_groups@) =~= p0.cycle_groups.push(g2));
        assert(profile@ =~= ProfileModel { cycle_groups: p0.cycle_groups.push(g2), ..p0 });
        self.selected_cycle_group_index = profile.cycle_groups.len() - 1;
    }

    /// Delete the selected group, unless it is the only one (the last
    /// group cannot be deleted). The selection stays on the same index, or
    /// moves to the new last group. Returns whether a group was deleted.
    pub fn delete_group(&mut self, profile: &mut Profile) -> (deleted: bool)
        requires
            old(self).selected_cycle_group_index < old(profile).cycle_groups@.len(),
        ensures
            deleted == (old(profile)@.cycle_groups.len() > 1),
            deleted ==> final(profile)@ == (ProfileModel {
                cycle_groups: old(profile)@.cycle_groups.remove(old(self).selected_cycle_group_index as int),
                ..old(profile)@
            }) && final(self).selected_cycle_group_index == (if old(self).selected_cycle_group_index
                < old(profile)@.cycle_groups.len() - 1 {
                old(self).selected_cycle_group_index as int
            } else {
                old(profile)@.cycle_groups.len() - 2
            }),
            !deleted ==> final(profile)@ == old(profile)@
                && final(self).selected_cycle_group_index == old(self).selected_cycle_group_index,
            final(self).renaming_group_idx == old(self).renaming_group_idx,
            final(self).rename_buffer@ == old(self).rename_buffer@,
            same_popup_state(*final(self), *old(self)),
    {
        if profile.cycle_groups.len() <= 1 {
            return false;
        }
        let ghost p0 = profile@;
        let ghost v0 = profile.cycle_groups@;
        let i = self.selected_cycle_group_index;
        profile.cycle_groups.remove(i);
        assert(group_views(profile.cycle_groups@) =~= group_views(v0).remove(i as int));
        assert(profile@ =~= ProfileModel { cycle_groups: p0.cycle_groups.remove(i as int), ..p0 });
        if self.selected_cycle_group_index >= profile.cycle_groups.len() {
            self.selected_cycle_group_index = profile.cycle_groups.len() - 1;
        }
        true
    }
}

/// Where a dragged member lands: dropping at row `to` below its own row
/// `from` counts one row less, since the member leaves its place first.
pub open spec fn drop_index(from: int, to: int) -> int {
    if from < to { to - 1 } else { to }
}

/// The member list after the member at `from` is dragged to row `to`:
/// taken out and put back at the drop index (at the end when past it).
pub open spec fn moved_members(s: Seq<Seq<char>>, from: int, to: int) -> Seq<Seq<char>> {
    let t = drop_index(from, to);
    if t == from {
        s
    } else {
        let rest = s.remove(from);
        rest.insert(if t < rest.len() { t } else { rest.len() as int }, s[from])
    }
}

/// The profile with the members of group `gi` replaced.
pub open spec fn with_members(p: ProfileModel, gi: int, members: Seq<Seq<char>>) -> ProfileModel {
    ProfileModel {
        cycle_groups: p.cycle_groups.update(gi, CycleGroupModel { characters: members, ..p.cycle_groups[gi] }),
        ..p
    }
}

fn move_in_list(v: &mut Vec<String>, from: usize, to: usize)
    requires
        drop_index(from as int, to as int) == from || from < old(v)@.len(),
    ensures
        crate::hotkey::string_views(final(v)@) == moved_members(crate::hotkey::string_views(old(v)@), from as int, to as int),
{
    let ghost s0 = crate::hotkey::string_views(v@);
    let t = if from < to { to - 1 } else { to };
    if t == from {
        return;
    }
    let ghost raw = v@;
    let item = v.remove(from);
    let ghost rest = v@;
    assert(crate::hotkey::string_views(rest) =~= s0.remove(from as int));
    let at = if t < v.len() { t } else { v.len() };
    v.insert(at, item);
    assert(v@ == rest.insert(at as int, raw[from as int]));
    assert(crate::hotkey::string_views(v@) =~= s0.remove(from as int).insert(at as int, s0[from as int]));
}

/// Drag the member at `from` of group `gi` to row `to` (a row index, or
/// the list's length for the space below the last member).
pub fn move_member(profile: &mut Profile, gi: usize, from: usize, to: usize)
    requires
        gi < old(profile).cycle_groups@.len(),
        drop_index(from as int, to as int) == from || from < old(profile).cycle_groups@[gi as int].characters@.len(),
    ensures
        final(profile)@ == with_members(
            old(profile)@,
            gi as int,
            moved_members(old(profile)@.cycle_groups[gi as int].characters, from as int, to as int),
        ),
{
    let ghost p0 = profile@;
    let mut g = profile.cycle_groups[gi].duplicate();
    move_in_list(&mut g.characters, from, to);
    let ghost g2 = g@;
    profile.cycle_groups.set(gi, g);
    assert(group_views(profile.cycle_groups@) =~= p0.cycle_groups.update(gi as int, g2));
    assert(profile@ =~= with_members(p0, gi as int, g2.characters));
}

/// Take the member at `idx` out of group `gi`.
pub fn remove_member(profile: &mut Profile, gi: usize, idx: usize)
    requires
        gi < old(profile).cycle_groups@.len(),
        idx < old(profile).cycle_groups@[gi as int].characters@.len(),
    ensures
        final(profile)@ == with_members(
            old(profile)@,
            gi as int,
            old(profile)@.cycle_groups[gi as int].characters.remove(idx as int),
        ),
{
    let ghost p0 = profile@;
    let mut g = profile.cycle_groups[gi].duplicate();
    let ghost before = g.characters@;
    g.characters.remove(idx);
    assert(crate::hotkey::string_views(g.characters@) =~= crate::hotkey::string_views(before).remove(idx as int));
    let ghost g2 = g@;
    profile.cycle_groups.set(gi, g);
    assert(group_views(profile.cycle_groups@) =~= p0.cycle_groups.update(gi as int, g2));
    assert(profile@ =~= with_members(p0, gi as int, g2.characters));
}

/// The capture target name of group `i`'s forward or backward hotkey.
pub open spec fn group_target_name(i: nat, forward: bool) -> Seq<char> {
    "GROUP:"@ + decimal(i) + (if forward { ":FWD"@ } else { ":BWD"@ })
}

/// "GROUP:<index>:FWD" or "GROUP:<index>:BWD": the name under which the
/// panel captures a group hotkey.
pub fn group_capture_name(idx: usize, forward: bool) -> (s: String)
    ensures
        s@ == group_target_name(idx as nat, forward),
{
    let mut s = owned("GROUP:");
    append_decimal_usize(&mut s, idx);
    if forward {
        s.append(":FWD");
    } else {
        s.append(":BWD");
    }
    s
}

/// The name the panel captures a group hotkey under designates exactly
/// that hotkey of that group in the capture dialog.
pub proof fn lemma_group_capture_name_round_trip(i: nat, forward: bool)
    requires
        i <= usize::MAX,
    ensures
        group_hotkey_slot(group_target_name(i, forward)) == Some((i, forward)),
{
    reveal_strlit("GROUP:");
    reveal_strlit("GROUP");
    reveal_strlit(":FWD");
    reveal_strlit(":BWD");
    reveal_strlit("FWD");
    reveal_strlit("BWD");
    crate::text::lemma_decimal_value_of_decimal(i);
    lemma_parse_usize_of_decimal(i);
    let d = decimal(i);
    let tail = if forward { "FWD"@ } else { "BWD"@ };
    let name = group_target_name(i, forward);
    let head = "GROUP"@;
    assert(forall|k: int| 0 <= k < d.len() ==> d[k] != ':') by {
        assert forall|k: int| 0 <= k < d.len() implies d[k] != ':' by {
            assert(crate::text::decimal_digit(d[k]) is Some);
        };
    };
    lemma_split_on_plain(head, ':');
    lemma_split_on_separator(head, ':');
    lemma_split_on_append(head.push(':'), d, ':');
    let a = head.push(':') + d;
    lemma_split_on_separator(a, ':');
    lemma_split_on_append(a.push(':'), tail, ':');
    assert(seq![Seq::<char>::empty()].update(0, Seq::<char>::empty() + d) =~= seq![d]);
    assert(a.push(':') + tail =~= name);
    let parts = split_on(name, ':');
    assert(split_on(head.push(':'), ':') =~= seq![head, Seq::<char>::empty()]);
    assert(split_on(a, ':') =~= seq![head, d]);
    assert(split_on(a.push(':'), ':') =~= seq![head, d, Seq::<char>::empty()]);
    assert(parts =~= seq![head, d, tail]);
    assert(name.subrange(0, 6) =~= "GROUP:"@);
    assert(crate::text::has_prefix(name, "GROUP:"@));
    assert(parts.len() == 3);
    assert(parts[1] == d);
    assert(crate::text::parse_usize(parts[1]) == Some(i));
    assert(parts[2] == tail);
    if forward {
        assert(parts[2] == "FWD"@);
    } else {
        assert(parts[2] == "BWD"@);
        assert("BWD"@[0] != "FWD"@[0]);
    }
}

/// Whether `v` holds the text `n`.
fn list_contains(v: &Vec<String>, n: &str) -> (b: bool)
    ensures
        b == string_views(v@).contains(n@),
{
    let mut i: usize = 0;
    while i < v.len()
        invariant
            i <= v@.len(),
            forall|j: int| 0 <= j < i ==> #[trigger] v@[j]@ != n@,
        decreases v@.len() - i,
    {
        if str_eq(v[i].as_str(), n) {
            assert(string_views(v@)[i as int] == n@);
            return true;
        }
        i = i + 1;
    }
    assert forall|j: int| 0 <= j < string_views(v@).len() implies string_views(v@)[j] != n@ by {
        assert(v@[j]@ != n@);
    };
    false
}

/// The label of a name in the "add characters" list.
pub open spec fn selection_text(name: Seq<char>, members: Seq<Seq<char>>) -> Seq<char> {
    if members.contains(name) { name + " (already in this group)"@ } else { name }
}

/// A name of the "add characters" list, marked when the group already
/// has it.
pub fn selection_label(name: &str, members: &Vec<String>) -> (s: String)
    ensures
        s@ == selection_text(name@, string_views(members@)),
{
    let mut s = owned(name);
    if list_contains(members, name) {
        s.append(" (already in this group)");
    }
    s
}

/// The members after "Add Selected": each selected name, in list order,
/// is appended unless the group has it by then.
pub open spec fn with_picked(members: Seq<Seq<char>>, entries: Seq<(String, bool)>) -> Seq<Seq<char>>
    decreases entries.len(),
{
    if entries.len() == 0 {
        members
    } else {
        let prev = with_picked(members, entries.drop_last());
        let e = entries.last();
        if e.1 && !prev.contains(e.0@) { prev.push(e.0@) } else { prev }
    }
}

/// Whether every name of the list is ticked.
pub open spec fn all_ticked(m: Map<Seq<char>, bool>) -> bool {
    forall|k: Seq<char>| #[trigger] m.contains_key(k) ==> m[k]
}

impl CharactersState {
    /// Open the "add characters" list: every known character and every
    /// custom source alias, none ticked.
    pub fn open_add_characters(&mut self, profile: &Profile)
        ensures
            final(self).show_add_characters_popup,
            final(self).character_selections@ == Map::new(
                |k: Seq<char>| profile@.character_thumbnails.contains_key(k) || is_custom_alias(profile@.custom_windows, k),
                |k: Seq<char>| false,
            ),
            final(self).expanded_rows@ == old(self).expanded_rows@,
            final(self).cached_overrides@ == old(self).cached_overrides@,
            final(self).selected_cycle_group_index == old(self).selected_cycle_group_index,
            final(self).renaming_group_idx == old(self).renaming_group_idx,
            final(self).rename_buffer@ == old(self).rename_buffer@,
    {
        self.show_add_characters_popup = true;
        let mut sel: NameMap<bool> = NameMap::new();
        let keys = profile.character_thumbnails.keys();
        let ghost entries = profile.character_thumbnails.spec_entries();
        let _e = profile.character_thumbnails.entries();
        proof {
            profile.character_thumbnails.lemma_entries();
        }
        let mut i: usize = 0;
        while i < keys.len()
            invariant
                i <= keys@.len(),
                keys@.len() == entries.len(),
                forall|j: int| 0 <= j < keys@.len() ==> #[trigger] keys@[j]@ == entries[j].0@,
                profile.character_thumbnails@ == crate::name_map::entries_map(entries),
                sel@ == Map::new(
                    |k: Seq<char>| exists|j: int| 0 <= j < i && #[trigger] keys@[j]@ == k,
                    |k: Seq<char>| false,
                ),
            decreases keys@.len() - i,
        {
            sel.insert(keys[i].clone(), false);
            assert(sel@ =~= Map::new(
                |k: Seq<char>| exists|j: int| 0 <= j < i + 1 && #[trigger] keys@[j]@ == k,
                |k: Seq<char>| false,
            )) by {
                assert forall|k: Seq<char>| (exists|j: int| 0 <= j < i + 1 && #[trigger] keys@[j]@ == k) implies sel@.contains_key(k) by {
                    let j = choose|j: int| 0 <= j < i + 1 && #[trigger] keys@[j]@ == k;
                    if j < i {
                        assert(exists|j2: int| 0 <= j2 < i && #[trigger] keys@[j2]@ == k);
                    }
                };
            };
            i = i + 1;
        }
        let ghost thumbs = profile@.character_thumbnails;
        assert forall|k: Seq<char>| (exists|j: int| 0 <= j < keys@.len() && #[trigger] keys@[j]@ == k) <==> thumbs.contains_key(k) by {
            if thumbs.contains_key(k) {
                let j = crate::name_map::key_index(entries, k);
                assert(keys@[j]@ == k);
            }
        };
        let rules = &profile.custom_windows;
        let mut r: usize = 0;
        while r < rules.len()
            invariant
                r <= rules@.len(),
                rule_views(rules@) == profile@.custom_windows,
                thumbs == profile@.character_thumbnails,
                sel@ == Map::new(
                    |k: Seq<char>| thumbs.contains_key(k)
                        || exists|j: int| 0 <= j < r && #[trigger] rules@[j].alias@ == k,
                    |k: Seq<char>| false,
                ),
            decreases rules@.len() - r,
        {
            sel.insert(rules[r].alias.clone(), false);
            assert(sel@ =~= Map::new(
                |k: Seq<char>| thumbs.contains_key(k) || exists|j: int| 0 <= j < r + 1 && #[trigger] rules@[j].alias@ == k,
                |k: Seq<char>| false,
            )) by {
                assert forall|k: Seq<char>| thumbs.contains_key(k) || (exists|j: int| 0 <= j < r + 1 && #[trigger] rules@[j].alias@ == k) implies sel@.contains_key(k) by {
                    if !thumbs.contains_key(k) {
                        let j = choose|j: int| 0 <= j < r + 1 && #[trigger] rules@[j].alias@ == k;
                        if j < r {
                            assert(exists|j2: int| 0 <= j2 < r && #[trigger] rules@[j2].alias@ == k);
                        }
                    }
                };
            };
            r = r + 1;
        }
        assert(sel@ =~= Map::new(
            |k: Seq<char>| profile@.character_thumbnails.contains_key(k) || is_custom_alias(profile@.custom_windows, k),
            |k: Seq<char>| false,
        )) by {
            assert forall|k: Seq<char>| (exists|j: int| 0 <= j < rules@.len() && #[trigger] rules@[j].alias@ == k)
                <==> is_custom_alias(profile@.custom_windows, k) by {
                if is_custom_alias(profile@.custom_windows, k) {
                    let j = choose|j: int| 0 <= j < profile@.custom_windows.len() && #[trigger] profile@.custom_windows[j].alias@ == k;
                    assert(rules@[j].alias@ == k);
                }
                if exists|j: int| 0 <= j < rules@.len() && #[trigger] rules@[j].alias@ == k {
                    let j = choose|j: int| 0 <= j < rules@.len() && #[trigger] rules@[j].alias@ == k;
                    assert(profile@.custom_windows[j].alias@ == k);
                }
            };
        };
        self.character_selections = sel;
    }

    /// "Select All" (or "Deselect All" when every name is ticked).
    pub fn toggle_all_selections(&mut self)
        ensures
            final(self).character_selections@ == Map::new(
                |k: Seq<char>| old(self).character_selections@.contains_key(k),
                |k: Seq<char>| !all_ticked(old(self).character_selections@),
            ),
            final(self).show_add_characters_popup == old(self).show_add_characters_popup,
            final(self).expanded_rows@ == old(self).expanded_rows@,
            final(self).cached_overrides@ == old(self).cached_overrides@,
            final(self).selected_cycle_group_index == old(self).selected_cycle_group_index,
            final(self).renaming_group_idx == old(self).renaming_group_idx,
            final(self).rename_buffer@ == old(self).rename_buffer@,
    {
        let ghost m0 = self.character_selections@;
        let ghost entries = self.character_selections.spec_entries();
        let n = self.character_selections.entries().len();
        proof {
            self.character_selections.lemma_entries();
        }
        let mut all = true;
        let mut i: usize = 0;
        while i < n
            invariant
                i <= n,
                n == entries.len(),
                entries == self.character_selections.spec_entries(),
                crate::name_map::keys_distinct(entries),
                m0 == self.character_selections@,
                m0 == crate::name_map::entries_map(entries),
                all == (forall|j: int| 0 <= j < i ==> #[trigger] entries[j].1),
            decreases n - i,
        {
            let v = *self.character_selections.value_at(i);
            all = all && v;
            i = i + 1;
        }
        assert(all == all_ticked(m0)) by {
            if all {
                assert forall|k: Seq<char>| #[trigger] m0.contains_key(k) implies m0[k] by {
                    let j = crate::name_map::key_index(entries, k);
                    crate::name_map::lemma_entry_in_map(entries, j);
                };
            } else {
                let j = choose|j: int| 0 <= j < n && !#[trigger] entries[j].1;
                crate::name_map::lemma_entry_in_map(entries, j);
            }
        };
        let target = !all;
        let mut i: usize = 0;
        while i < n
            invariant
                i <= n,
                n == entries.len(),
                n == self.character_selections.spec_entries().len(),
                crate::name_map::keys_distinct(entries),
                m0 == crate::name_map::entries_map(entries),
                forall|j: int| 0 <= j < n ==> #[trigger] self.character_selections.spec_entries()[j].0@ == entries[j].0@,
                self.show_add_characters_popup == old(self).show_add_characters_popup,
                self.expanded_rows@ == old(self).expanded_rows@,
                self.cached_overrides@ == old(self).cached_overrides@,
                self.selected_cycle_group_index == old(self).selected_cycle_group_index,
                self.renaming_group_idx == old(self).renaming_group_idx,
                self.rename_buffer@ == old(self).rename_buffer@,
                self.character_selections@ == Map::new(
                    |k: Seq<char>| m0.contains_key(k),
                    |k: Seq<char>| if exists|j: int| 0 <= j < i && #[trigger] entries[j].0@ == k { target } else { m0[k] },
                ),
            decreases n - i,
        {
            self.character_selections.set_value_at(i, target);
            proof {
                crate::name_map::lemma_entry_in_map(entries, i as int);
            }
            assert(self.character_selections@ =~= Map::new(
                |k: Seq<char>| m0.contains_key(k),
                |k: Seq<char>| if exists|j: int| 0 <= j < i + 1 && #[trigger] entries[j].0@ == k { target } else { m0[k] },
            )) by {
                assert forall|k: Seq<char>| m0.contains_key(k) implies
                    self.character_selections@[k] == (if exists|j: int| 0 <= j < i + 1 && #[trigger] entries[j].0@ == k { target } else { m0[k] }) by {
                    if k != entries[i as int].0@ {
                        if exists|j: int| 0 <= j < i + 1 && #[trigger] entries[j].0@ == k {
                            let j = choose|j: int| 0 <= j < i + 1 && #[trigger] entries[j].0@ == k;
                            assert(j < i);
                        }
                    }
                };
            };
            i = i + 1;
        }
        assert(self.character_selections@ =~= Map::new(
            |k: Seq<char>| m0.contains_key(k),
            |k: Seq<char>| target,
        )) by {
            assert forall|k: Seq<char>| m0.contains_key(k) implies (exists|j: int| 0 <= j < n && #[trigger] entries[j].0@ == k) by {
                let j = crate::name_map::key_index(entries, k);
                assert(entries[j].0@ == k);
            };
        };
    }

    /// "Add Selected": the ticked names join the selected group, in list
    /// order, each unless the group has it by then; the list closes.
    /// Returns whether a name was added.
    pub fn add_selected(&mut self, profile: &mut Profile) -> (added: bool)
        requires
            old(self).selected_cycle_group_index < old(profile).cycle_groups@.len(),
        ensures
            final(profile)@ == with_members(
                old(profile)@,
                old(self).selected_cycle_group_index as int,
                with_picked(
                    old(profile)@.cycle_groups[old(self).selected_cycle_group_index as int].characters,
                    old(self).character_selections.spec_entries(),
                ),
            ),
            added == (with_picked(
                old(profile)@.cycle_groups[old(self).selected_cycle_group_index as int].characters,
                old(self).character_selections.spec_entries(),
            ).len() > old(profile)@.cycle_groups[old(self).selected_cycle_group_index as int].characters.len()),
            !final(self).show_add_characters_popup,
            final(self).character_selections@ == old(self).character_selections@,
            final(self).expanded_rows@ == old(self).expanded_rows@,
            final(self).cached_overrides@ == old(self).cached_overrides@,
            final(self).selected_cycle_group_index == old(self).selected_cycle_group_index,
            final(self).renaming_group_idx == old(self).renaming_group_idx,
            final(self).rename_buffer@ == old(self).rename_buffer@,
    {
        let ghost p0 = profile@;
        let gi = self.selected_cycle_group_index;
        let mut g = profile.cycle_groups[gi].duplicate();
        let start_len = g.characters.len();
        let ghost start = string_views(g.characters@);
        let ghost entries = self.character_selections.spec_entries();
        let list = self.character_selections.entries();
        let n = list.len();
        let mut i: usize = 0;
        while i < n
            invariant
                i <= n,
                n == entries.len(),
                list@ == entries,
                string_views(g.characters@) == with_picked(start, entries.subrange(0, i as int)),
                start.len() <= string_views(g.characters@).len(),
                start_len == start.len(),
                g.name@ == p0.cycle_groups[gi as int].name,
                crate::profile::opt_hotkey(g.hotkey_forward) == p0.cycle_groups[gi as int].hotkey_forward,
                crate::profile::opt_hotkey(g.hotkey_backward) == p0.cycle_groups[gi as int].hotkey_backward,
            decreases n - i,
        {
            proof {
                let next = entries.subrange(0, i + 1);
                assert(next.drop_last() =~= entries.subrange(0, i as int));
                assert(next.last() == entries[i as int]);
            }
            let picked = list[i].1;
            if picked && !list_contains(&g.characters, list[i].0.as_str()) {
                let ghost before = g.characters@;
                g.characters.push(list[i].0.clone());
                assert(string_views(g.characters@) =~= string_views(before).push(entries[i as int].0@));
            }
            i = i + 1;
        }
        assert(entries.subrange(0, n as int) =~= entries);
        let added = g.characters.len() > start_len;
        let ghost g2 = g@;
        profile.cycle_groups.set(gi, g);
        assert(group_views(profile.cycle_groups@) =~= p0.cycle_groups.update(gi as int, g2));
        assert(g2 == CycleGroupModel { characters: g2.characters, ..p0.cycle_groups[gi as int] });
        assert(profile@ =~= with_members(p0, gi as int, g2.characters));
        self.show_add_characters_popup = false;
        added
    }
}

/// `s` without the entries equal to `n`.
pub open spec fn members_without(s: Seq<Seq<char>>, n: Seq<char>) -> Seq<Seq<char>>
    decreases s.len(),
{
    if s.len() == 0 {
        s
    } else {
        let p = members_without(s.drop_last(), n);
        if s.last() == n { p } else { p.push(s.last()) }
    }
}

/// The groups with `n` taken out of every member list.
pub open spec fn groups_without(groups: Seq<CycleGroupModel>, n: Seq<char>) -> Seq<CycleGroupModel> {
    groups.map_values(|g: CycleGroupModel| CycleGroupModel { characters: members_without(g.characters, n), ..g })
}

/// The profile after character `n` is removed in the editor.
pub open spec fn without_character(p: ProfileModel, n: Seq<char>) -> ProfileModel {
    ProfileModel {
        character_thumbnails: p.character_thumbnails.remove(n),
        character_hotkeys: p.character_hotkeys.remove(n),
        cycle_groups: groups_without(p.cycle_groups, n),
        ..p
    }
}

fn retain_other_names(v: &Vec<String>, n: &str) -> (r: Vec<String>)
    ensures
        string_views(r@) == members_without(string_views(v@), n@),
{
    let mut r: Vec<String> = Vec::new();
    let mut i: usize = 0;
    while i < v.len()
        invariant
            i <= v@.len(),
            string_views(r@) == members_without(string_views(v@.subrange(0, i as int)), n@),
        decreases v@.len() - i,
    {
        proof {
            let next = string_views(v@.subrange(0, i + 1));
            assert(next.drop_last() =~= string_views(v@.subrange(0, i as int)));
            assert(next.last() == v@[i as int]@);
        }
        if !str_eq(v[i].as_str(), n) {
            let ghost before = r@;
            r.push(v[i].clone());
            assert(string_views(r@) =~= string_views(before).push(v@[i as int]@));
        }
        i = i + 1;
    }
    assert(v@.subrange(0, v@.len() as int) =~= v@);
    r
}

/// Remove a character from the editor: its thumbnail settings, its
/// hotkey and its place in every cycle group.
pub fn remove_character(profile: &mut Profile, name: &str)
    ensures
        final(profile)@ == without_character(old(profile)@, name@),
{
    let ghost p0 = profile@;
    profile.character_thumbnails.remove(name);
    profile.character_hotkeys.remove(name);
    let n = profile.cycle_groups.len();
    let mut i: usize = 0;
    while i < n
        invariant
            i <= n,
            n == profile.cycle_groups@.len(),
            n == p0.cycle_groups.len(),
            profile@.character_thumbnails == p0.character_thumbnails.remove(name@),
            profile@.character_hotkeys == p0.character_hotkeys.remove(name@),
            profile@ == (ProfileModel {
                character_thumbnails: profile@.character_thumbnails,
                character_hotkeys: profile@.character_hotkeys,
                cycle_groups: profile@.cycle_groups,
                ..p0
            }),
            forall|j: int| 0 <= j < i ==> #[trigger] profile@.cycle_groups[j] == groups_without(p0.cycle_groups, name@)[j],
            forall|j: int| i <= j < n ==> #[trigger] profile@.cycle_groups[j] == p0.cycle_groups[j],
        decreases n - i,
    {
        assert(profile@.cycle_groups[i as int] == p0.cycle_groups[i as int]);
        let mut g = profile.cycle_groups[i].duplicate();
        assert(g@ == p0.cycle_groups[i as int]);
        g.characters = retain_other_names(&g.characters, name);
        let ghost g2 = g@;
        assert(g2 == groups_without(p0.cycle_groups, name@)[i as int]);
        let ghost before = profile@;
        profile.cycle_groups.set(i, g);
        assert(group_views(profile.cycle_groups@) =~= before.cycle_groups.update(i as int, g2));
        assert(profile@ =~= ProfileModel { cycle_groups: before.cycle_groups.update(i as int, g2), ..before });
        i = i + 1;
    }
    assert(profile@.cycle_groups =~= groups_without(p0.cycle_groups, name@));
    assert(profile@ =~= without_character(p0, name@));
}

proof fn lemma_members_without_drops(s: Seq<Seq<char>>, n: Seq<char>)
    ensures
        !members_without(s, n).contains(n),
        forall|k: Seq<char>| k != n && s.contains(k) ==> #[trigger] members_without(s, n).contains(k),
    decreases s.len(),
{
    if s.len() > 0 {
        lemma_members_without_drops(s.drop_last(), n);
        let p = members_without(s.drop_last(), n);
        assert forall|k: Seq<char>| k != n && s.contains(k) implies #[trigger] members_without(s, n).contains(k) by {
            let i = choose|i: int| 0 <= i < s.len() && s[i] == k;
            if i < s.len() - 1 {
                assert(s.drop_last()[i] == k);
                assert(p.contains(k));
                let j = choose|j: int| 0 <= j < p.len() && p[j] == k;
                if s.last() != n {
                    assert(p.push(s.last())[j] == k);
                }
            } else {
                assert(p.push(s.last())[p.len() as int] == k);
            }
        };
        if s.last() != n {
            assert forall|j: int| 0 <= j < p.len() + 1 implies #[trigger] p.push(s.last())[j] != n by {
                if j < p.len() {
                    assert(p[j] != n);
                }
            };
        }
    }
}

/// After a character is removed it has no thumbnail settings, no hotkey
/// and no place in any cycle group, while every other member stays in its
/// groups.
pub proof fn lemma_removed_character_is_gone(p: ProfileModel, n: Seq<char>)
    ensures
        !without_character(p, n).character_thumbnails.contains_key(n),
        !without_character(p, n).character_hotkeys.contains_key(n),
        without_character(p, n).cycle_groups.len() == p.cycle_groups.len(),
        forall|g: int| 0 <= g < p.cycle_groups.len() ==> !(#[trigger] without_character(p, n).cycle_groups[g]).characters.contains(n),
        forall|g: int, k: Seq<char>| 0 <= g < p.cycle_groups.len() && k != n && p.cycle_groups[g].characters.contains(k)
            ==> #[trigger] without_character(p, n).cycle_groups[g].characters.contains(k),
{
    assert forall|g: int| 0 <= g < p.cycle_groups.len() implies !(#[trigger] without_character(p, n).cycle_groups[g]).characters.contains(n) by {
        lemma_members_without_drops(p.cycle_groups[g].characters, n);
    };
    assert forall|g: int, k: Seq<char>| 0 <= g < p.cycle_groups.len() && k != n && p.cycle_groups[g].characters.contains(k)
        implies #[trigger] without_character(p, n).cycle_groups[g].characters.contains(k) by {
        lemma_members_without_drops(p.cycle_groups[g].characters, n);
    };
}

/// Which visual override of a character the editor switches.
#[derive(Debug, Clone, Copy, PartialEq, Eq, Structural)]
pub enum CharacterOverride {
    ActiveBorder,
    InactiveBorder,
    TextColor,
}

/// The first of `a`, `b` that is set, else `Some(d)`.
pub open spec fn first_set<T>(a: Option<T>, b: Option<T>, d: T) -> Option<T> {
    if a is Some { a } else if b is Some { b } else { Some(d) }
}

/// Settings and kept-aside values after override `which` is switched on
/// (fields not set take the kept value, else the theme's) or off (the
/// values are kept aside and cleared).
pub open spec fn override_switch(
    s: CharacterSettings,
    c: CachedOverrides,
    d: ThemeDefaults,
    which: CharacterOverride,
    on: bool,
) -> (CharacterSettings, CachedOverrides) {
    match which {
        CharacterOverride::ActiveBorder => if on {
            (CharacterSettings {
                override_active_border_color: first_set(s.override_active_border_color, c.active_border_color, d.active_border_color),
                override_active_border_size: first_set(s.override_active_border_size, c.active_border_size, d.active_border_size),
                ..s
            }, c)
        } else {
            (CharacterSettings { override_active_border_color: None, override_active_border_size: None, ..s },
             CachedOverrides { active_border_color: s.override_active_border_color, active_border_size: s.override_active_border_size, ..c })
        },
        CharacterOverride::InactiveBorder => if on {
            (CharacterSettings {
                override_inactive_border_color: first_set(s.override_inactive_border_color, c.inactive_border_color, d.inactive_border_color),
                override_inactive_border_size: first_set(s.override_inactive_border_size, c.inactive_border_size, d.inactive_border_size),
                ..s
            }, c)
        } else {
            (CharacterSettings { override_inactive_border_color: None, override_inactive_border_size: None, ..s },
             CachedOverrides { inactive_border_color: s.override_inactive_border_color, inactive_border_size: s.override_inactive_border_size, ..c })
        },
        CharacterOverride::TextColor => if on {
            (CharacterSettings { override_text_color: first_set(None, c.text_color, d.text_color), ..s }, c)
        } else {
            (CharacterSettings { override_text_color: None, ..s }, CachedOverrides { text_color: s.override_text_color, ..c })
        },
    }
}

/// Switch an override of a character's settings, keeping aside the values
/// switched off.
pub fn switch_override(
    settings: &mut CharacterSettings,
    cached: &mut CachedOverrides,
    defaults: &ThemeDefaults,
    which: CharacterOverride,
    on: bool,
)
    ensures
        (*final(settings), *final(cached)) == override_switch(*old(settings), *old(cached), *defaults, which, on),
{
    match which {
        CharacterOverride::ActiveBorder => {
            if on {
                if settings.override_active_border_color.is_none() {
                    settings.override_active_border_color = match &cached.active_border_color {
                        Some(c) => Some(c.clone()),
                        None => Some(defaults.active_border_color.clone()),
                    };
                }
                if settings.override_active_border_size.is_none() {
                    settings.override_active_border_size = match cached.active_border_size {
                        Some(z) => Some(z),
                        None => Some(defaults.active_border_size),
                    };
                }
            } else {
                cached.active_border_color = crate::text::copy_opt_string(&settings.override_active_border_color);
                cached.active_border_size = settings.override_active_border_size;
                settings.override_active_border_color = None;
                settings.override_active_border_size = None;
            }
        },
        CharacterOverride::InactiveBorder => {
            if on {
                if settings.override_inactive_border_color.is_none() {
                    settings.override_inactive_border_color = match &cached.inactive_border_color {
                        Some(c) => Some(c.clone()),
                        None => Some(defaults.inactive_border_color.clone()),
                    };
                }
                if settings.override_inactive_border_size.is_none() {
                    settings.override_inactive_border_size = match cached.inactive_border_size {
                        Some(z) => Some(z),
                        None => Some(defaults.inactive_border_size),
                    };
                }
            } else {
                cached.inactive_border_color = crate::text::copy_opt_string(&settings.override_inactive_border_color);
                cached.inactive_border_size = settings.override_inactive_border_size;
                settings.override_inactive_border_color = None;
                settings.override_inactive_border_size = None;
            }
        },
        CharacterOverride::TextColor => {
            if on {
                settings.override_text_color = match &cached.text_color {
                    Some(c) => Some(c.clone()),
                    None => Some(defaults.text_color.clone()),
                };
            } else {
                cached.text_color = crate::text::copy_opt_string(&settings.override_text_color);
                settings.override_text_color = None;
            }
        },
    }
}

/// Switching an override off and on again gives back the settings it had,
/// when the override was fully set (colour and, for borders, size).
pub proof fn lemma_override_off_on_restores(
    s: CharacterSettings,
    c: CachedOverrides,
    d: ThemeDefaults,
    which: CharacterOverride,
)
    requires
        which == CharacterOverride::ActiveBorder ==> s.override_active_border_color is Some && s.override_active_border_size is Some,
        which == CharacterOverride::InactiveBorder ==> s.override_inactive_border_color is Some && s.override_inactive_border_size is Some,
        which == CharacterOverride::TextColor ==> s.override_text_color is Some,
    ensures
        ({
            let (s1, c1) = override_switch(s, c, d, which, false);
            override_switch(s1, c1, d, which, true).0 == s
        }),
{
}

/// Switch the static preview of a character: on starts it black, off
/// returns to the live preview.
pub fn set_static_preview(settings: &mut CharacterSettings, on: bool)
    ensures
        *final(settings) == (CharacterSettings { preview_mode: final(settings).preview_mode, ..*old(settings) }),
        on ==> (final(settings).preview_mode matches PreviewMode::Static { color } && color@ == "#000000"@),
        !on ==> final(settings).preview_mode == PreviewMode::Live,
{
    if on {
        settings.preview_mode = PreviewMode::Static { color: owned("#000000") };
    } else {
        settings.preview_mode = PreviewMode::Live;
    }
}

/// Nothing kept aside.
pub open spec fn no_cached_overrides() -> CachedOverrides {
    CachedOverrides {
        active_border_color: None,
        inactive_border_color: None,
        active_border_size: None,
        inactive_border_size: None,
        text_color: None,
    }
}

impl CharactersState {
    /// Switch an override of character `name` in the editor: its settings
    /// in the profile change as `override_switch` says, with the values
    /// this panel keeps aside for it (none at first).
    pub fn switch_character_override(
        &mut self,
        profile: &mut Profile,
        name: &str,
        defaults: &ThemeDefaults,
        which: CharacterOverride,
        on: bool,
    )
        requires
            old(profile)@.character_thumbnails.contains_key(name@),
        ensures
            ({
                let c0 = if old(self).cached_overrides@.contains_key(name@) {
                    old(self).cached_overrides@[name@]
                } else {
                    no_cached_overrides()
                };
                let (s, c) = override_switch(old(profile)@.character_thumbnails[name@], c0, *defaults, which, on);
                &&& final(profile)@ == (ProfileModel {
                    character_thumbnails: old(profile)@.character_thumbnails.insert(name@, s),
                    ..old(profile)@
                })
                &&& final(self).cached_overrides@ == old(self).cached_overrides@.insert(name@, c)
            }),
            final(self).show_add_characters_popup == old(self).show_add_characters_popup,
            final(self).character_selections@ == old(self).character_selections@,
            final(self).expanded_rows@ == old(self).expanded_rows@,
            final(self).selected_cycle_group_index == old(self).selected_cycle_group_index,
            final(self).renaming_group_idx == old(self).renaming_group_idx,
            final(self).rename_buffer@ == old(self).rename_buffer@,
    {
        let ghost p0 = profile@;
        let mut settings = match profile.character_thumbnails.get(name) {
            Some(v) => v.copy(),
            None => CharacterSettings::new(0, 0, 0, 0),
        };
        let mut cached = match self.cached_overrides.get(name) {
            Some(c) => c.duplicate(),
            None => CachedOverrides::new(),
        };
        switch_override(&mut settings, &mut cached, defaults, which, on);
        profile.character_thumbnails.insert(owned(name), settings);
        self.cached_overrides.insert(owned(name), cached);
        assert(profile@ =~= ProfileModel { character_thumbnails: profile@.character_thumbnails, ..p0 });
    }
}

/// The resize tool's target that stands for every character.
pub open spec fn all_characters_target() -> Seq<char> {
    "All Characters"@
}

/// The resize tool's target that stands for none.
pub open spec fn no_target() -> Seq<char> {
    "---"@
}

/// The size the resize tool starts from for a target: the character's
/// own, or for "All Characters" that of the first character listed; 250 x
/// 141 when there is none.
pub open spec fn start_size(p: ProfileModel, first: Option<CharacterSettings>, target: Seq<char>) -> (u16, u16) {
    if target == all_characters_target() {
        match first {
            Some(s) => (s.dimensions.width, s.dimensions.height),
            None => (250, 141),
        }
    } else if p.character_thumbnails.contains_key(target) {
        (p.character_thumbnails[target].dimensions.width, p.character_thumbnails[target].dimensions.height)
    } else {
        (250, 141)
    }
}

/// The first character of the profile's list, if any.
pub open spec fn first_listed(p: Profile) -> Option<CharacterSettings> {
    if p.character_thumbnails.spec_entries().len() > 0 {
        Some(p.character_thumbnails.spec_entries()[0].1)
    } else {
        None
    }
}

/// The sizes of every character set to `d`.
pub open spec fn all_resized(m: Map<Seq<char>, CharacterSettings>, d: Dimensions) -> Map<Seq<char>, CharacterSettings> {
    Map::new(|k: Seq<char>| m.contains_key(k), |k: Seq<char>| CharacterSettings { dimensions: d, ..m[k] })
}

impl VisualSettingsState {
    /// A target chosen in the resize tool: when it is a new one (not
    /// "---"), the tool starts from its size.
    pub fn select_resize_target(&mut self, profile: &Profile, target: &str)
        ensures
            (target@ != no_target() && target@ != old(self).last_target@) ==> {
                let (w, h) = start_size(profile@, first_listed(*profile), target@);
                &&& final(self).current_width == w
                &&& final(self).current_height == h
                &&& final(self).last_target@ == target@
            },
            !(target@ != no_target() && target@ != old(self).last_target@) ==> *final(self) == *old(self),
            final(self).show_resize_confirmation == old(self).show_resize_confirmation,
            final(self).pending_resize_all == old(self).pending_resize_all,
            final(self).available_fonts == old(self).available_fonts,
            final(self).font_load_error == old(self).font_load_error,
    {
        if str_eq(target, "---") || str_eq(target, self.last_target.as_str()) {
            return;
        }
        let (w, h) = if str_eq(target, "All Characters") {
            let entries = profile.character_thumbnails.entries();
            if entries.len() > 0 {
                (entries[0].1.dimensions.width, entries[0].1.dimensions.height)
            } else {
                (250u16, 141u16)
            }
        } else {
            match profile.character_thumbnails.get(target) {
                Some(s) => (s.dimensions.width, s.dimensions.height),
                None => (250u16, 141u16),
            }
        };
        self.current_width = w;
        self.current_height = h;
        self.last_target = owned(target);
    }

    /// "Apply Size": for "All Characters" the size waits for confirmation;
    /// a character's own size is set at once. Returns whether the profile
    /// changed.
    pub fn apply_size(&mut self, profile: &mut Profile, target: &str) -> (changed: bool)
        ensures
            ({
                let d = Dimensions { width: old(self).current_width, height: old(self).current_height };
                if target@ == all_characters_target() {
                    &&& !changed
                    &&& final(profile)@ == old(profile)@
                    &&& final(self).pending_resize_all == Some(d)
                    &&& final(self).show_resize_confirmation
                } else if old(profile)@.character_thumbnails.contains_key(target@) {
                    &&& changed
                    &&& final(profile)@ == (ProfileModel {
                        character_thumbnails: old(profile)@.character_thumbnails.insert(
                            target@,
                            CharacterSettings { dimensions: d, ..old(profile)@.character_thumbnails[target@] },
                        ),
                        ..old(profile)@
                    })
                    &&& final(self).pending_resize_all == old(self).pending_resize_all
                    &&& final(self).show_resize_confirmation == old(self).show_resize_confirmation
                } else {
                    &&& !changed
                    &&& final(profile)@ == old(profile)@
                    &&& final(self).pending_resize_all == old(self).pending_resize_all
                    &&& final(self).show_resize_confirmation == old(self).show_resize_confirmation
                }
            }),
            final(self).current_width == old(self).current_width,
            final(self).current_height == old(self).current_height,
            final(self).last_target == old(self).last_target,
    {
        let d = Dimensions::new(self.current_width, self.current_height);
        if str_eq(target, "All Characters") {
            self.pending_resize_all = Some(d);
            self.show_resize_confirmation = true;
            return false;
        }
        let ghost p0 = profile@;
        match profile.character_thumbnails.get(target) {
            Some(s) => {
                let mut s = s.copy();
                s.dimensions = d;
                profile.character_thumbnails.insert(owned(target), s);
                assert(profile@ =~= ProfileModel { character_thumbnails: profile@.character_thumbnails, ..p0 });
                true
            },
            None => false,
        }
    }

    /// Answer the "resize all" confirmation: `yes` gives every character
    /// the waiting size. The confirmation closes either way. Returns
    /// whether the profile changed.
    pub fn confirm_resize_all(&mut self, profile: &mut Profile, yes: bool) -> (changed: bool)
        ensures
            changed == (yes && old(self).pending_resize_all is Some),
            changed ==> final(profile)@ == (ProfileModel {
                character_thumbnails: all_resized(old(profile)@.character_thumbnails, old(self).pending_resize_all->0),
                ..old(profile)@
            }),
            !changed ==> final(profile)@ == old(profile)@,
            !final(self).show_resize_confirmation,
            final(self).pending_resize_all is None,
            final(self).current_width == old(self).current_width,
            final(self).current_height == old(self).current_height,
            final(self).last_target == old(self).last_target,
    {
        let pending = self.pending_resize_all;
        self.show_resize_confirmation = false;
        self.pending_resize_all = None;
        if !yes {
            return false;
        }
        match pending {
            Some(d) => {
                let ghost p0 = profile@;
                let ghost m0 = profile@.character_thumbnails;
                let keys = profile.character_thumbnails.keys();
                let ghost entries = profile.character_thumbnails.spec_entries();
                let _e = profile.character_thumbnails.entries();
                proof {
                    profile.character_thumbnails.lemma_entries();
                }
                let mut i: usize = 0;
                while i < keys.len()
                    invariant
                        i <= keys@.len(),
                        keys@.len() == entries.len(),
                        forall|j: int| 0 <= j < keys@.len() ==> #[trigger] keys@[j]@ == entries[j].0@,
                        crate::name_map::keys_distinct(entries),
                        m0 == crate::name_map::entries_map(entries),
                        profile@ == (ProfileModel { character_thumbnails: profile@.character_thumbnails, ..p0 }),
                        profile@.character_thumbnails == Map::new(
                            |k: Seq<char>| m0.contains_key(k),
                            |k: Seq<char>| if exists|j: int| 0 <= j < i && #[trigger] keys@[j]@ == k {
                                CharacterSettings { dimensions: d, ..m0[k] }
                            } else {
                                m0[k]
                            },
                        ),
                    decreases keys@.len() - i,
                {
                    proof {
                        crate::name_map::lemma_entry_in_map(entries, i as int);
                    }
                    let ghost before = profile@;
                    match profile.character_thumbnails.get(keys[i].as_str()) {
                        Some(s) => {
                            let mut s = s.copy();
                            s.dimensions = d;
                            profile.character_thumbnails.insert(keys[i].clone(), s);
                        },
                        None => {},
                    }
                    assert(profile@.character_thumbnails =~= Map::new(
                        |k: Seq<char>| m0.contains_key(k),
                        |k: Seq<char>| if exists|j: int| 0 <= j < i + 1 && #[trigger] keys@[j]@ == k {
                            CharacterSettings { dimensions: d, ..m0[k] }
                        } else {
                            m0[k]
                        },
                    )) by {
                        assert forall|k: Seq<char>| m0.contains_key(k) implies profile@.character_thumbnails[k] == (
                            if exists|j: int| 0 <= j < i + 1 && #[trigger] keys@[j]@ == k {
                                CharacterSettings { dimensions: d, ..m0[k] }
                            } else {
                                m0[k]
                            }) by {
                            if k != keys@[i as int]@ {
                                if exists|j: int| 0 <= j < i + 1 && #[trigger] keys@[j]@ == k {
                                    let j = choose|j: int| 0 <= j < i + 1 && #[trigger] keys@[j]@ == k;
                                    assert(j < i);
                                }
                            } else {
                                if exists|j: int| 0 <= j < i && #[trigger] keys@[j]@ == k {
                                    let j = choose|j: int| 0 <= j < i && #[trigger] keys@[j]@ == k;
                                    assert(entries[j].0@ == entries[i as int].0@);
                                }
                            }
                        };
                    };
                    assert(profile@ =~= ProfileModel { character_thumbnails: profile@.character_thumbnails, ..p0 });
                    i = i + 1;
                }
                assert(profile@.character_thumbnails =~= all_resized(m0, d)) by {
                    assert forall|k: Seq<char>| m0.contains_key(k) implies (exists|j: int| 0 <= j < keys@.len() && #[trigger] keys@[j]@ == k) by {
                        let j = crate::name_map::key_index(entries, k);
                        assert(keys@[j]@ == k);
                    };
                };
                true
            },
            None => false,
        }
    }
}

} // verus!
