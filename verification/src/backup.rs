//! Configuration backups: how backup files are named and recognised, their
//! order, which automatic backups are pruned, and when an automatic backup
//! is due. Reading the backup directory and the clock is the caller's.

use vstd::prelude::*;
use crate::text::{contains_seq, contains_str, ends_with, has_suffix, owned};

verus! {

/// A backup file.
#[derive(Debug, Clone, PartialEq, Eq)]
pub struct BackupEntry {
    pub filename: String,
    /// Modification time, in nanoseconds since the Unix epoch.
    pub timestamp: u128,
    /// Made on request rather than automatically.
    pub is_manual: bool,
}

/// Backup management.
pub struct BackupManager;

/// The name of a backup made at `timestamp` (as "YYYYMMDD_HHMMSS").
pub open spec fn spec_backup_filename(is_manual: bool, timestamp: Seq<char>) -> Seq<char> {
    (if is_manual { "manual_backup"@ } else { "auto_backup"@ }) + "_"@ + timestamp + ".tar.gz"@
}

/// Whether a file name has the extension "gz" (a dot with something
/// before it, then "gz").
pub open spec fn is_gz_file(name: Seq<char>) -> bool {
    has_suffix(name, ".gz"@) && name.len() > 3
}

/// The backup entry of a file of the backup directory.
pub open spec fn entry_of(f: (String, u128)) -> BackupEntry {
    BackupEntry { filename: f.0, timestamp: f.1, is_manual: contains_seq(f.0@, "manual"@) }
}

/// The backups among the files, in directory order.
pub open spec fn backup_files(files: Seq<(String, u128)>) -> Seq<BackupEntry>
    decreases files.len(),
{
    if files.len() == 0 {
        Seq::empty()
    } else if is_gz_file(files.last().0@) {
        backup_files(files.drop_last()).push(entry_of(files.last()))
    } else {
        backup_files(files.drop_last())
    }
}

/// Whether a backup was modified at time `t`.
pub open spec fn made_at(t: u128) -> spec_fn(BackupEntry) -> bool {
    |e: BackupEntry| e.timestamp == t
}

/// Whether the backups are ordered newest first.
pub open spec fn newest_first(b: Seq<BackupEntry>) -> bool {
    forall|i: int, j: int| 0 <= i < j < b.len() ==> (#[trigger] b[i]).timestamp >= (#[trigger] b[j]).timestamp
}

/// The automatic backups among `b`, in order.
pub open spec fn auto_backups(b: Seq<BackupEntry>) -> Seq<BackupEntry>
    decreases b.len(),
{
    if b.len() == 0 {
        Seq::empty()
    } else if b.last().is_manual {
        auto_backups(b.drop_last())
    } else {
        auto_backups(b.drop_last()).push(b.last())
    }
}

/// Pruning spares manual backups: every backup that `backups_to_prune`
/// can name (an automatic backup past the retained ones) is one of the
/// listed backups and was not made on request.
pub proof fn lemma_pruning_spares_manual_backups(b: Seq<BackupEntry>)
    ensures
        forall|k: int| 0 <= k < auto_backups(b).len() ==> {
            &&& !(#[trigger] auto_backups(b)[k]).is_manual
            &&& b.contains(auto_backups(b)[k])
        },
    decreases b.len(),
{
    if b.len() > 0 {
        lemma_pruning_spares_manual_backups(b.drop_last());
        assert forall|k: int| 0 <= k < auto_backups(b).len() implies {
            &&& !(#[trigger] auto_backups(b)[k]).is_manual
            &&& b.contains(auto_backups(b)[k])
        } by {
            let rest = auto_backups(b.drop_last());
            if k < rest.len() {
                assert(auto_backups(b)[k] == rest[k]);
                let j = choose|j: int| 0 <= j < b.drop_last().len() && b.drop_last()[j] == rest[k];
                assert(b[j] == rest[k]);
            } else {
                assert(auto_backups(b)[k] == b.last());
                assert(b[b.len() - 1] == b.last());
            }
        };
    }
}

/// How many automatic backups come before position `i`.
pub open spec fn auto_rank(b: Seq<BackupEntry>, i: int) -> nat {
    auto_backups(b.take(i)).len()
}

/// Whether `name` is the name of an automatic backup past the first
/// `retention` ones: a name that pruning deletes.
pub open spec fn pruned_name(b: Seq<BackupEntry>, retention: nat, name: Seq<char>) -> bool {
    exists|k: int| retention <= k < auto_backups(b).len() && (#[trigger] auto_backups(b)[k]).filename@ == name
}

/// No two backups share a file name.
pub open spec fn distinct_names(b: Seq<BackupEntry>) -> bool {
    forall|i: int, j: int| 0 <= i < b.len() && 0 <= j < b.len() && i != j ==> (#[trigger] b[i]).filename@ != (#[trigger] b[j]).filename@
}

/// An automatic backup stands in the list of automatic backups at its rank.
proof fn lemma_auto_at_rank(b: Seq<BackupEntry>, i: int)
    requires
        0 <= i < b.len(),
        !b[i].is_manual,
    ensures
        auto_rank(b, i) < auto_backups(b).len(),
        auto_backups(b)[auto_rank(b, i) as int] == b[i],
    decreases b.len(),
{
    let dl = b.drop_last();
    if i == b.len() - 1 {
        assert(b.take(i) =~= dl);
    } else {
        lemma_auto_at_rank(dl, i);
        assert(dl.take(i) =~= b.take(i));
    }
}

/// Every automatic backup in the list comes from a position of that rank.
proof fn lemma_auto_source(b: Seq<BackupEntry>, k: int)
    requires
        0 <= k < auto_backups(b).len(),
    ensures
        exists|j: int| 0 <= j < b.len() && b[j] == auto_backups(b)[k] && !b[j].is_manual && #[trigger] auto_rank(b, j) == k,
    decreases b.len(),
{
    let dl = b.drop_last();
    if !b.last().is_manual && k == auto_backups(dl).len() {
        assert(b.take(b.len() - 1) =~= dl);
        assert(auto_rank(b, b.len() - 1) == k);
    } else {
        lemma_auto_source(dl, k);
        let j = choose|j: int| 0 <= j < dl.len() && dl[j] == auto_backups(dl)[k] && !dl[j].is_manual && #[trigger] auto_rank(dl, j) == k;
        assert(dl.take(j) =~= b.take(j));
        assert(auto_rank(b, j) == k);
    }
}

/// Deleting the backups that pruning names leaves exactly the manual
/// backups and the first `retention` automatic ones (the newest, the list
/// being newest first): a backup's name is pruned if and only if it is
/// automatic and at least `retention` automatic backups come before it.
pub proof fn lemma_pruning_keeps_manual_and_newest(b: Seq<BackupEntry>, retention: nat)
    requires
        distinct_names(b),
    ensures
        forall|i: int| 0 <= i < b.len() ==> (pruned_name(b, retention, #[trigger] b[i].filename@)
            <==> (!b[i].is_manual && auto_rank(b, i) >= retention)),
{
    assert forall|i: int| 0 <= i < b.len() implies (pruned_name(b, retention, #[trigger] b[i].filename@)
        <==> (!b[i].is_manual && auto_rank(b, i) >= retention)) by {
        if !b[i].is_manual && auto_rank(b, i) >= retention {
            lemma_auto_at_rank(b, i);
            let k = auto_rank(b, i) as int;
            assert(auto_backups(b)[k].filename@ == b[i].filename@);
        }
        if pruned_name(b, retention, b[i].filename@) {
            let k = choose|k: int| retention <= k < auto_backups(b).len() && (#[trigger] auto_backups(b)[k]).filename@ == b[i].filename@;
            lemma_auto_source(b, k);
            let j = choose|j: int| 0 <= j < b.len() && b[j] == auto_backups(b)[k] && !b[j].is_manual && #[trigger] auto_rank(b, j) == k;
            assert(j == i);
        }
    };
}

/// Whether a backup was made on request.
pub open spec fn made_manually() -> spec_fn(BackupEntry) -> bool {
    |e: BackupEntry| e.is_manual
}

/// The backups of `b` whose names pruning does not delete.
pub open spec fn after_pruning(b: Seq<BackupEntry>, retention: nat) -> Seq<BackupEntry> {
    b.filter(|e: BackupEntry| !pruned_name(b, retention, e.filename@))
}

/// The smaller of two numbers.
pub open spec fn min_nat(a: nat, b: nat) -> nat {
    if a <= b { a } else { b }
}

/// The first `n` backups after pruning: manual ones all kept, automatic
/// ones up to `retention`.
proof fn lemma_pruned_prefix(b: Seq<BackupEntry>, retention: nat, n: int)
    requires
        distinct_names(b),
        0 <= n <= b.len(),
    ensures
        ({
            let bn = b.take(n);
            let kept = bn.filter(|e: BackupEntry| !pruned_name(b, retention, e.filename@));
            &&& kept.filter(made_manually()) == bn.filter(made_manually())
            &&& auto_backups(kept) == auto_backups(bn).take(min_nat(retention, auto_backups(bn).len()) as int)
        }),
    decreases n,
{
    let kp = |e: BackupEntry| !pruned_name(b, retention, e.filename@);
    let man = made_manually();
    if n == 0 {
        let bn = b.take(0);
        assert(bn =~= Seq::<BackupEntry>::empty());
        reveal(Seq::filter);
        assert(bn.filter(kp) =~= Seq::<BackupEntry>::empty());
        assert(auto_backups(bn).take(0) =~= Seq::<BackupEntry>::empty());
    } else {
        lemma_pruned_prefix(b, retention, n - 1);
        lemma_pruning_keeps_manual_and_newest(b, retention);
        let bp = b.take(n - 1);
        let e = b[n - 1];
        let bn = b.take(n);
        assert(bn =~= bp.push(e));
        assert(bn.drop_last() =~= bp);
        let x = bp.filter(kp);
        let k = auto_backups(bp).len();
        assert(auto_rank(b, n - 1) == k);
        bp.lemma_filter_push(e, kp);
        bp.lemma_filter_push(e, man);
        x.lemma_filter_push(e, man);
        assert(x.push(e).drop_last() =~= x);
        if e.is_manual {
            assert(kp(e));
            assert(auto_backups(x.push(e)) == auto_backups(x));
            assert(auto_backups(bn) == auto_backups(bp));
        } else if k < retention {
            assert(kp(e));
            assert(auto_backups(x.push(e)) == auto_backups(x).push(e));
            assert(auto_backups(bn) == auto_backups(bp).push(e));
            assert(auto_backups(bp).take(k as int) =~= auto_backups(bp));
            assert(auto_backups(bn).take((k + 1) as int) =~= auto_backups(bn));
        } else {
            assert(!kp(e));
            assert(auto_backups(bn) == auto_backups(bp).push(e));
            assert(auto_backups(bn).take(retention as int) =~= auto_backups(bp).take(retention as int));
        }
    }
}

/// The listing after the backups that pruning names are deleted holds
/// every manual backup and, of the automatic ones, exactly the first
/// `retention` (the newest, the list being newest first), in their order.
pub proof fn lemma_listing_after_pruning(b: Seq<BackupEntry>, retention: nat)
    requires
        distinct_names(b),
    ensures
        after_pruning(b, retention).filter(made_manually()) == b.filter(made_manually()),
        auto_backups(after_pruning(b, retention)) == auto_backups(b).take(min_nat(retention, auto_backups(b).len()) as int),
{
    lemma_pruned_prefix(b, retention, b.len() as int);
    assert(b.take(b.len() as int) =~= b);
}

/// Whether an automatic backup is due: never when the interval is 0;
/// always when the backups could not be listed, when there is no
/// automatic backup, or when the clock is before the newest one;
/// otherwise when whole days since the newest automatic backup reach the
/// interval.
pub open spec fn auto_backup_due(interval_days: u32, backups: Option<Seq<BackupEntry>>, now: u128) -> bool {
    if interval_days == 0 {
        false
    } else {
        match backups {
            None => true,
            Some(b) => {
                let autos = auto_backups(b);
                if autos.len() == 0 {
                    true
                } else if now < autos[0].timestamp {
                    true
                } else {
                    ((now - autos[0].timestamp) / 1_000_000_000) / 86400 >= interval_days
                }
            },
        }
    }
}

impl BackupManager {
    /// The file name of a new backup: "manual_backup_" or "auto_backup_",
    /// the local time as "YYYYMMDD_HHMMSS", then ".tar.gz".
    pub fn backup_filename(is_manual: bool, timestamp: &str) -> (s: String)
        ensures
            s@ == spec_backup_filename(is_manual, timestamp@),
    {
        let mut s = if is_manual { owned("manual_backup") } else { owned("auto_backup") };
        s.append("_");
        s.append(timestamp);
        s.append(".tar.gz");
        s
    }

    /// Whether a backup was made on request: its name holds "manual".
    pub fn is_manual(filename: &str) -> (b: bool)
        ensures
            b == contains_seq(filename@, "manual"@),
    {
        contains_str(filename, "manual")
    }

    /// Whether a file of the backup directory is a backup (".gz").
    pub fn is_backup_file(filename: &str) -> (b: bool)
        ensures
            b == is_gz_file(filename@),
    {
        proof { reveal_strlit(".gz"); }
        ends_with(filename, ".gz") && filename.unicode_len() > 3
    }

    /// The backups among the files of the backup directory (name and
    /// modification time), newest first; backups with the same
    /// modification time keep their directory order.
    pub fn collect_backups(files: Vec<(String, u128)>) -> (r: Vec<BackupEntry>)
        ensures
            r@.to_multiset() == backup_files(files@).to_multiset(),
            newest_first(r@),
            forall|t: u128| #[trigger] r@.filter(made_at(t)) == backup_files(files@).filter(made_at(t)),
    {
        let mut r: Vec<BackupEntry> = Vec::new();
        let mut i: usize = 0;
        let ghost fs = files@;
        while i < files.len()
            invariant
                i <= fs.len(),
                fs == files@,
                r@.to_multiset() == backup_files(fs.subrange(0, i as int)).to_multiset(),
                newest_first(r@),
                forall|t: u128| #[trigger] r@.filter(made_at(t)) == backup_files(fs.subrange(0, i as int)).filter(made_at(t)),
            decreases fs.len() - i,
        {
            proof {
                let next = fs.subrange(0, i + 1);
                assert(next.drop_last() =~= fs.subrange(0, i as int));
                assert(next.last() == fs[i as int]);
            }
            let name = &files[i].0;
            if Self::is_backup_file(name.as_str()) {
                let entry = BackupEntry {
                    filename: name.clone(),
                    timestamp: files[i].1,
                    is_manual: Self::is_manual(name.as_str()),
                };
                let mut j: usize = 0;
                while j < r.len() && r[j].timestamp >= entry.timestamp
                    invariant
                        j <= r@.len(),
                        newest_first(r@),
                        forall|t: int| 0 <= t < j ==> (#[trigger] r@[t]).timestamp >= entry.timestamp,
                    decreases r@.len() - j,
                {
                    j = j + 1;
                }
                assert(forall|t: int| j <= t < r@.len() ==> (#[trigger] r@[t]).timestamp < entry.timestamp) by {
                    if j < r@.len() {
                        assert forall|t: int| j <= t < r@.len() implies (#[trigger] r@[t]).timestamp < entry.timestamp by {
                            assert(r@[j as int].timestamp >= r@[t].timestamp);
                        };
                    }
                };
                let ghost before = r@;
                r.insert(j, entry);
                proof {
                    vstd::seq_lib::to_multiset_insert(before, j as int, entry);
                    vstd::seq_lib::to_multiset_build(backup_files(fs.subrange(0, i as int)), entry_of(fs[i as int]));
                    assert(entry == entry_of(fs[i as int]));
                    let prev = backup_files(fs.subrange(0, i as int));
                    assert(backup_files(fs.subrange(0, i + 1)) == prev.push(entry));
                    let a_part = before.take(j as int);
                    let b_part = before.skip(j as int);
                    assert(before =~= a_part + b_part);
                    assert(r@ =~= a_part.push(entry) + b_part);
                    assert forall|t: u128| #[trigger] r@.filter(made_at(t)) == prev.push(entry).filter(made_at(t)) by {
                        let p = made_at(t);
                        Seq::filter_distributes_over_add(a_part.push(entry), b_part, p);
                        Seq::filter_distributes_over_add(a_part, b_part, p);
                        a_part.lemma_filter_push(entry, p);
                        prev.lemma_filter_push(entry, p);
                        if entry.timestamp == t {
                            assert(b_part.all(|x: BackupEntry| !p(x))) by {
                                assert forall|k: int| 0 <= k < b_part.len() implies !p(#[trigger] b_part[k]) by {
                                    assert(b_part[k] == before[j + k]);
                                };
                            };
                            b_part.lemma_all_neg_filter_empty(p);
                            assert(b_part.filter(p) =~= Seq::<BackupEntry>::empty());
                            assert(r@.filter(p) =~= a_part.filter(p).push(entry));
                            assert(before.filter(p) =~= a_part.filter(p));
                        } else {
                            assert(r@.filter(p) =~= a_part.filter(p) + b_part.filter(p));
                        }
                    };
                    assert forall|a: int, b: int| 0 <= a < b < r@.len() implies (#[trigger] r@[a]).timestamp >= (#[trigger] r@[b]).timestamp by {
                        if a < j && b == j {
                        } else if a < j && b > j {
                            assert(r@[a] == before[a] && r@[b] == before[b - 1]);
                        } else if a == j {
                            assert(r@[b] == before[b - 1]);
                        } else if b < j {
                            assert(r@[a] == before[a] && r@[b] == before[b]);
                        } else {
                            assert(r@[a] == before[a - 1] && r@[b] == before[b - 1]);
                        }
                    };
                }
            }
            i = i + 1;
        }
        assert(fs.subrange(0, fs.len() as int) =~= fs);
        r
    }

    /// The automatic backups beyond the newest `retention_count` (given the
    /// backups newest first): the file names to delete.
    pub fn backups_to_prune(backups: &Vec<BackupEntry>, retention_count: u32) -> (r: Vec<String>)
        ensures
            ({
                let autos = auto_backups(backups@);
                &&& r@.len() == (if autos.len() > retention_count { autos.len() - retention_count } else { 0 })
                &&& forall|k: int| 0 <= k < r@.len() ==> (#[trigger] r@[k])@ == autos[retention_count + k].filename@
            }),
            forall|name: Seq<char>| (exists|k: int| 0 <= k < r@.len() && (#[trigger] r@[k])@ == name)
                <==> #[trigger] pruned_name(backups@, retention_count as nat, name),
    {
        let mut autos: Vec<&BackupEntry> = Vec::new();
        let mut i: usize = 0;
        while i < backups.len()
            invariant
                i <= backups@.len(),
                autos@.len() == auto_backups(backups@.subrange(0, i as int)).len(),
                forall|k: int| 0 <= k < autos@.len() ==> *(#[trigger] autos@[k]) == auto_backups(backups@.subrange(0, i as int))[k],
            decreases backups@.len() - i,
        {
            proof {
                let next = backups@.subrange(0, i + 1);
                assert(next.drop_last() =~= backups@.subrange(0, i as int));
                assert(next.last() == backups@[i as int]);
            }
            if !backups[i].is_manual {
                autos.push(&backups[i]);
            }
            i = i + 1;
        }
        assert(backups@.subrange(0, backups@.len() as int) =~= backups@);
        let mut r: Vec<String> = Vec::new();
        let mut k: usize = retention_count as usize;
        if k > autos.len() {
            k = autos.len();
        }
        let start = k;
        while k < autos.len()
            invariant
                start <= k <= autos@.len(),
                start == (if autos@.len() > retention_count { retention_count as int } else { autos@.len() as int }),
                r@.len() == k - start,
                forall|t: int| 0 <= t < r@.len() ==> (#[trigger] r@[t])@ == autos@[start + t].filename@,
            decreases autos@.len() - k,
        {
            r.push(autos[k].filename.clone());
            k = k + 1;
        }
        proof {
            let ab = auto_backups(backups@);
            assert forall|name: Seq<char>| (exists|k: int| 0 <= k < r@.len() && (#[trigger] r@[k])@ == name)
                <==> #[trigger] pruned_name(backups@, retention_count as nat, name) by {
                if exists|k: int| 0 <= k < r@.len() && (#[trigger] r@[k])@ == name {
                    let k = choose|k: int| 0 <= k < r@.len() && (#[trigger] r@[k])@ == name;
                    assert(ab[start + k].filename@ == name);
                }
                if pruned_name(backups@, retention_count as nat, name) {
                    let k = choose|k: int| retention_count <= k < ab.len() && (#[trigger] ab[k]).filename@ == name;
                    assert(r@[k - start]@ == name);
                }
            };
        }
        r
    }

    /// Whether an automatic backup is due (`auto_backup_due`), given the
    /// backups newest first (`None` when they could not be listed) and the
    /// time now in nanoseconds since the Unix epoch.
    pub fn should_run_auto_backup(interval_days: u32, backups: Option<&Vec<BackupEntry>>, now: u128) -> (b: bool)
        ensures
            b == auto_backup_due(interval_days, match backups { Some(v) => Some(v@), None => None }, now),
    {
        if interval_days == 0 {
            return false;
        }
        let list = match backups {
            Some(v) => v,
            None => return true,
        };
        let mut i: usize = 0;
        while i < list.len()
            invariant
                i <= list@.len(),
                interval_days != 0,
                backups matches Some(v) && v@ == list@,
                auto_backups(list@.subrange(0, i as int)).len() == 0,
            decreases list@.len() - i,
        {
            proof {
                let next = list@.subrange(0, i + 1);
                assert(next.drop_last() =~= list@.subrange(0, i as int));
                assert(next.last() == list@[i as int]);
            }
            if !list[i].is_manual {
                proof { lemma_first_auto(list@, i as int); }
                let ts = list[i].timestamp;
                if now < ts {
                    return true;
                }
                let secs = (now - ts) / 1_000_000_000;
                return secs / 86400 >= interval_days as u128;
            }
            i = i + 1;
        }
        assert(list@.subrange(0, list@.len() as int) =~= list@);
        true
    }
}

/// The first automatic backup is the first backup that is not manual.
proof fn lemma_first_auto(b: Seq<BackupEntry>, i: int)
    requires
        0 <= i < b.len(),
        !b[i].is_manual,
        auto_backups(b.subrange(0, i)).len() == 0,
    ensures
        auto_backups(b).len() > 0,
        auto_backups(b)[0] == b[i],
    decreases b.len(),
{
    if b.len() - 1 == i {
        assert(b.drop_last() =~= b.subrange(0, i));
    } else {
        assert(b.drop_last().subrange(0, i) =~= b.subrange(0, i));
        lemma_first_auto(b.drop_last(), i);
    }
}

/// Without an automatic backup, none is listed as automatic.
proof fn lemma_no_autos(b: Seq<BackupEntry>)
    requires
        forall|j: int| 0 <= j < b.len() ==> (#[trigger] b[j]).is_manual,
    ensures
        auto_backups(b).len() == 0,
    decreases b.len(),
{
    if b.len() > 0 {
        assert(b.last() == b[b.len() - 1]);
        lemma_no_autos(b.drop_last());
    }
}

/// When an automatic backup is due, given the backups newest first: never
/// with an interval of 0; always when they could not be listed or hold no
/// automatic backup; otherwise it is measured from the first (newest)
/// automatic backup alone: due when that one lies in the future or is at
/// least `interval_days` whole days old, whatever older backups exist.
pub proof fn lemma_auto_backup_due_from_newest(interval_days: u32, b: Seq<BackupEntry>, now: u128, i: int)
    ensures
        interval_days == 0 ==> !auto_backup_due(interval_days, Some(b), now) && !auto_backup_due(interval_days, None, now),
        interval_days > 0 ==> auto_backup_due(interval_days, None, now),
        interval_days > 0 && (forall|j: int| 0 <= j < b.len() ==> (#[trigger] b[j]).is_manual)
            ==> auto_backup_due(interval_days, Some(b), now),
        interval_days > 0 && 0 <= i < b.len() && !b[i].is_manual && (forall|j: int| 0 <= j < i ==> (#[trigger] b[j]).is_manual)
            ==> auto_backup_due(interval_days, Some(b), now) == (now < b[i].timestamp
                || (now - b[i].timestamp) / 1_000_000_000 / 86400 >= interval_days),
{
    if forall|j: int| 0 <= j < b.len() ==> (#[trigger] b[j]).is_manual {
        lemma_no_autos(b);
    }
    if 0 <= i < b.len() && !b[i].is_manual && (forall|j: int| 0 <= j < i ==> (#[trigger] b[j]).is_manual) {
        let pre = b.subrange(0, i);
        assert forall|j: int| 0 <= j < pre.len() implies (#[trigger] pre[j]).is_manual by {
            assert(pre[j] == b[j]);
        };
        lemma_no_autos(pre);
        lemma_first_auto(b, i);
    }
}

} // verus!
