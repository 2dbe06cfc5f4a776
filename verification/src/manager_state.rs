//! The manager's configuration state: what it saves, which profile is
//! selected, and how it takes in what the daemon reports or wrote.

use vstd::prelude::*;
use crate::domain::{CharacterSettings, Dimensions, plain_settings};
use crate::name_map::{NameMap, entries_map, key_index, lemma_entry_in_map};
use crate::profile::{
    Config, Profile, ProfileModel, first_named, find_profile, merge_from_disk, merge_positions_into,
};
use crate::text::copy_string;

verus! {

/// A profile after taking character positions from the first disk profile
/// of the same name.
pub open spec fn with_disk_character_positions(p: ProfileModel, disk: Seq<Profile>) -> ProfileModel {
    match first_named(disk, p.profile_name) {
        Some(j) => ProfileModel {
            character_thumbnails: merge_from_disk(p.character_thumbnails, disk[j].character_thumbnails@, false),
            ..p
        },
        None => p,
    }
}

impl Config {
    /// The configuration the manager saves: its own profiles and global
    /// settings, each character it holds taking its position (not its
    /// size) from the first disk profile of the same name (the daemon moves
    /// thumbnails); characters only on disk are not added back.
    pub fn merge_disk_character_positions(self, disk: &Config) -> (c: Config)
        ensures
            c.global == self.global,
            c.profiles@.len() == self.profiles@.len(),
            forall|i: int| 0 <= i < c.profiles@.len() ==> (#[trigger] c.profiles@[i])@
                == with_disk_character_positions(self.profiles@[i]@, disk.profiles@),
    {
        let Config { global, profiles } = self;
        let ghost orig = profiles@;
        let mut rest = profiles;
        let mut out: Vec<Profile> = Vec::new();
        while rest.len() > 0
            invariant
                out@.len() + rest@.len() == orig.len(),
                rest@ == orig.subrange(out@.len() as int, orig.len() as int),
                forall|i: int| 0 <= i < out@.len() ==> (#[trigger] out@[i])@
                    == with_disk_character_positions(orig[i]@, disk.profiles@),
            decreases rest@.len(),
        {
            let ghost idx = out@.len() as int;
            let mut p = rest.remove(0);
            assert(p == orig[idx]);
            let ghost before = p@;
            match find_profile(&disk.profiles, p.profile_name.as_str()) {
                Some(j) => {
                    merge_positions_into(&mut p.character_thumbnails, &disk.profiles[j].character_thumbnails, false);
                    assert(p@ =~= with_disk_character_positions(before, disk.profiles@));
                },
                None => {},
            }
            out.push(p);
            assert(rest@ =~= orig.subrange(out@.len() as int, orig.len() as int));
        }
        Config { global, profiles: out }
    }

    /// The position of the selected profile in the list, 0 when no profile
    /// has the selected name.
    pub fn selected_profile_index(&self) -> (i: usize)
        ensures
            i == (match first_named(self.profiles@, self.global.selected_profile@) {
                Some(k) => k,
                None => 0,
            }),
    {
        match find_profile(&self.profiles, self.global.selected_profile.as_str()) {
            Some(i) => i,
            None => 0,
        }
    }

    /// Select profile `idx` when there is one; returns whether it was.
    pub fn select_profile(&mut self, idx: usize) -> (switched: bool)
        ensures
            switched == (idx < old(self).profiles@.len()),
            final(self).profiles == old(self).profiles,
            switched ==> final(self).global.selected_profile@ == old(self).profiles@[idx as int].profile_name@,
            final(self).global.window_width == old(self).global.window_width,
            final(self).global.window_height == old(self).global.window_height,
            !switched ==> final(self).global == old(self).global,
    {
        if idx < self.profiles.len() {
            self.global.selected_profile = copy_string(&self.profiles[idx].profile_name);
            true
        } else {
            false
        }
    }
}

/// The characters after taking in those the daemon saved: every named
/// character on disk that memory lacks is added; memory's entries stay.
pub open spec fn with_new_characters(
    memory: Map<Seq<char>, CharacterSettings>,
    disk: Map<Seq<char>, CharacterSettings>,
) -> Map<Seq<char>, CharacterSettings> {
    Map::new(
        |k: Seq<char>| memory.contains_key(k) || (disk.contains_key(k) && k.len() > 0),
        |k: Seq<char>| if memory.contains_key(k) { memory[k] } else { disk[k] },
    )
}

/// A profile after taking in the new characters of the disk profile at
/// the same position, when that profile has the same name.
pub open spec fn profile_with_new_characters(p: ProfileModel, i: int, disk: Seq<Profile>) -> ProfileModel {
    if i < disk.len() && disk[i].profile_name@ == p.profile_name {
        ProfileModel { character_thumbnails: with_new_characters(p.character_thumbnails, disk[i].character_thumbnails@), ..p }
    } else {
        p
    }
}

/// Taking in the daemon's characters keeps every entry held in memory as
/// it is and adds only named characters found on disk.
pub proof fn lemma_new_characters_only_add(memory: Map<Seq<char>, CharacterSettings>, disk: Map<Seq<char>, CharacterSettings>)
    ensures
        forall|k: Seq<char>| #[trigger] memory.contains_key(k) ==> with_new_characters(memory, disk).contains_key(k)
            && with_new_characters(memory, disk)[k] == memory[k],
        forall|k: Seq<char>| #[trigger] with_new_characters(memory, disk).contains_key(k) && !memory.contains_key(k)
            ==> disk.contains_key(k) && k.len() > 0 && with_new_characters(memory, disk)[k] == disk[k],
{
}

/// Add the named entries of `disk` that `memory` lacks.
fn add_missing_characters(memory: &mut NameMap<CharacterSettings>, disk: &NameMap<CharacterSettings>)
    ensures
        final(memory)@ == with_new_characters(old(memory)@, disk@),
{
    let ghost orig = memory@;
    let entries = disk.entries();
    proof { disk.lemma_entries(); }
    let mut j: usize = 0;
    while j < entries.len()
        invariant
            j <= entries@.len(),
            entries@ == disk.spec_entries(),
            crate::name_map::keys_distinct(entries@),
            disk@ == entries_map(entries@),
            memory@.dom() =~= orig.dom().union(Set::new(|k: Seq<char>|
                exists|t: int| 0 <= t < j && #[trigger] entries@[t].0@ == k && k.len() > 0)),
            forall|k: Seq<char>| #[trigger] memory@.contains_key(k) ==>
                memory@[k] == (if orig.contains_key(k) { orig[k] } else { disk@[k] }),
        decreases entries@.len() - j,
    {
        let (name, settings) = (&entries[j].0, &entries[j].1);
        proof { lemma_entry_in_map(entries@, j as int); }
        if name.unicode_len() > 0 && !memory.contains_key(name.as_str()) {
            memory.insert(name.clone(), settings.copy());
        }
        proof {
            assert forall|k: Seq<char>| #[trigger] memory@.contains_key(k) implies
                memory@[k] == (if orig.contains_key(k) { orig[k] } else { disk@[k] }) by {};
        }
        j = j + 1;
    }
    proof {
        assert forall|k: Seq<char>| disk@.contains_key(k) && k.len() > 0 implies #[trigger] memory@.contains_key(k) by {
            let t = key_index(entries@, k);
            assert(entries@[t].0@ == k);
        };
        assert forall|k: Seq<char>| #[trigger] memory@.contains_key(k) && !orig.contains_key(k) implies disk@.contains_key(k) && k.len() > 0 by {
            let t = choose|t: int| 0 <= t < entries@.len() && #[trigger] entries@[t].0@ == k && k.len() > 0;
            lemma_entry_in_map(entries@, t);
        };
        assert(memory@ =~= with_new_characters(orig, disk@));
    }
}

impl Config {
    /// The configuration after taking in characters the daemon found: each
    /// profile gains the named characters of the disk profile at the same
    /// position (when it has the same name) that it lacks; nothing else
    /// changes.
    pub fn with_new_characters_from(self, disk: &Config) -> (c: Config)
        ensures
            c.global == self.global,
            c.profiles@.len() == self.profiles@.len(),
            forall|i: int| 0 <= i < c.profiles@.len() ==> (#[trigger] c.profiles@[i])@
                == profile_with_new_characters(self.profiles@[i]@, i, disk.profiles@),
    {
        let Config { global, profiles } = self;
        let ghost orig = profiles@;
        let mut rest = profiles;
        let mut out: Vec<Profile> = Vec::new();
        while rest.len() > 0
            invariant
                out@.len() + rest@.len() == orig.len(),
                rest@ == orig.subrange(out@.len() as int, orig.len() as int),
                forall|i: int| 0 <= i < out@.len() ==> (#[trigger] out@[i])@
                    == profile_with_new_characters(orig[i]@, i, disk.profiles@),
            decreases rest@.len(),
        {
            let idx = out.len();
            let mut p = rest.remove(0);
            assert(p == orig[idx as int]);
            let ghost before = p@;
            if idx < disk.profiles.len()
                && crate::text::str_eq(disk.profiles[idx].profile_name.as_str(), p.profile_name.as_str())
            {
                add_missing_characters(&mut p.character_thumbnails, &disk.profiles[idx].character_thumbnails);
                assert(p@ =~= profile_with_new_characters(before, idx as int, disk.profiles@));
            }
            out.push(p);
            assert(rest@ =~= orig.subrange(out@.len() as int, orig.len() as int));
        }
        Config { global, profiles: out }
    }
}

impl Profile {
    /// Record where the daemon shows `name`'s thumbnail: its entry moves
    /// and takes the new size, keeping its other settings; a character
    /// without an entry gets plain settings there.
    pub fn record_thumbnail_position(&mut self, name: &str, x: i16, y: i16, width: u16, height: u16)
        ensures
            final(self)@ == (ProfileModel {
                character_thumbnails: old(self)@.character_thumbnails.insert(
                    name@,
                    if old(self)@.character_thumbnails.contains_key(name@) {
                        crate::runtime::with_geometry(old(self)@.character_thumbnails[name@], x, y, width, height)
                    } else {
                        plain_settings(x, y, width, height)
                    },
                ),
                ..old(self)@
            }),
    {
        let settings = match self.character_thumbnails.get(name) {
            Some(s) => {
                let mut s = s.copy();
                s.x = x;
                s.y = y;
                s.dimensions = Dimensions::new(width, height);
                s
            },
            None => CharacterSettings::new(x, y, width, height),
        };
        self.character_thumbnails.insert(crate::text::owned(name), settings);
        assert(self@ =~= (ProfileModel {
            character_thumbnails: old(self)@.character_thumbnails.insert(
                name@,
                if old(self)@.character_thumbnails.contains_key(name@) {
                    crate::runtime::with_geometry(old(self)@.character_thumbnails[name@], x, y, width, height)
                } else {
                    plain_settings(x, y, width, height)
                },
            ),
            ..old(self)@
        }));
    }
}

} // verus!
