//! Hotkey cycle state: the windows of the characters that are logged in,
//! the characters skipped by the user, and a position in each cycle group.
//! Cycling moves through a group's order and stops at the first character
//! that is not skipped and has a window (a logged-in one, or a logged-out
//! client whose last character it was).

use vstd::prelude::*;
use std::collections::HashMap;
use crate::hotkey::{copy_string_vec, string_views};
use crate::name_map::{NameMap, entries_map, has_key, key_index, lemma_entry_in_map};
use crate::profile::{CycleGroup, CycleGroupModel};
use crate::text::{opt_view, owned, str_eq, str_le, lex_le, lemma_lex_antisymmetric, lemma_lex_total, lemma_lex_transitive};

verus! {

broadcast use vstd::std_specs::hash::group_hash_axioms;

/// Cycle position within one group.
#[derive(Debug)]
pub struct GroupState {
    order: Vec<String>,
    current_index: usize,
}

/// The mathematical value of a group's state.
#[verifier::ext_equal]
pub struct GroupModel {
    pub order: Seq<Seq<char>>,
    pub index: int,
}

impl View for GroupState {
    type V = GroupModel;

    closed spec fn view(&self) -> GroupModel {
        GroupModel { order: string_views(self.order@), index: self.current_index as int }
    }
}

/// Active windows, skipped characters and group positions.
#[derive(Debug)]
pub struct CycleState {
    /// Cycle groups by name.
    groups: NameMap<GroupState>,
    /// The focused window, if known.
    current_window: Option<u32>,
    /// Window of each logged-in character.
    active_windows: NameMap<u32>,
    /// Characters left out of cycling.
    skipped_characters: NameMap<()>,
}

/// The mathematical value of the cycle state.
#[verifier::ext_equal]
pub struct CycleModel {
    pub groups: Map<Seq<char>, GroupModel>,
    pub current_window: Option<u32>,
    pub active: Map<Seq<char>, u32>,
    pub skipped: Set<Seq<char>>,
}

impl View for CycleState {
    type V = CycleModel;

    closed spec fn view(&self) -> CycleModel {
        CycleModel {
            groups: self.groups@,
            current_window: self.current_window,
            active: self.active_windows@,
            skipped: self.skipped_characters@.dom(),
        }
    }
}

/// Every group's position lies within its order (it is 0 when the order
/// is empty).
pub open spec fn groups_in_range(groups: Map<Seq<char>, GroupModel>) -> bool {
    forall|g: Seq<char>| #[trigger] groups.contains_key(g) ==> {
        ||| groups[g].index == 0
        ||| 0 <= groups[g].index < groups[g].order.len()
    }
}

/// The groups of a profile, each at its first character; a later group
/// replaces an earlier one of the same name.
pub open spec fn initial_groups(gs: Seq<CycleGroupModel>) -> Map<Seq<char>, GroupModel>
    decreases gs.len(),
{
    if gs.len() == 0 {
        Map::empty()
    } else {
        initial_groups(gs.drop_last()).insert(gs.last().name, GroupModel { order: gs.last().characters, index: 0 })
    }
}

/// The logged-out windows with the last character each showed.
pub open spec fn logged_view(m: Option<&HashMap<u32, String>>) -> Option<Map<u32, String>> {
    match m {
        Some(h) => Some(h@),
        None => None,
    }
}

/// Whether some window of `l` last showed `name`.
pub open spec fn shows_last(l: Map<u32, String>, name: Seq<char>) -> bool {
    exists|w: u32| #[trigger] l.contains_key(w) && l[w]@ == name
}

/// Whether some logged-out window last showed `name`.
pub open spec fn logged_has(logged: Option<Map<u32, String>>, name: Seq<char>) -> bool {
    match logged {
        Some(l) => shows_last(l, name),
        None => false,
    }
}

/// Whether cycling may stop at `name`: it is not skipped and has a window.
pub open spec fn reachable(s: CycleModel, logged: Option<Map<u32, String>>, name: Seq<char>) -> bool {
    &&& !s.skipped.contains(name)
    &&& (s.active.contains_key(name) || logged_has(logged, name))
}

/// Whether `w` is a window for `name`: its own window when logged in,
/// otherwise a logged-out window that last showed it.
pub open spec fn window_for(s: CycleModel, logged: Option<Map<u32, String>>, name: Seq<char>, w: u32) -> bool {
    if s.active.contains_key(name) {
        w == s.active[name]
    } else {
        logged matches Some(l) && l.contains_key(w) && l[w]@ == name
    }
}

/// Whether `window` belongs to some logged-in character.
pub open spec fn is_active_window(active: Map<Seq<char>, u32>, window: u32) -> bool {
    exists|n: Seq<char>| active.contains_key(n) && #[trigger] active[n] == window
}

pub open spec fn result_view(r: Option<(u32, String)>) -> Option<(u32, Seq<char>)> {
    match r {
        Some((w, n)) => Some((w, n@)),
        None => None,
    }
}

/// The position `k` steps away from `start` in an order of length `len`,
/// wrapping around, forward or backward.
pub open spec fn step_index(start: int, k: int, len: int, forward: bool) -> int {
    if forward {
        (start + k) % len
    } else {
        (start - k) % len
    }
}

/// The first number of steps, from `k` up to the order's length, that
/// lands on a reachable character.
pub open spec fn scan(
    s: CycleModel,
    logged: Option<Map<u32, String>>,
    order: Seq<Seq<char>>,
    start: int,
    forward: bool,
    k: int,
) -> Option<int>
    decreases order.len() - k,
{
    if k < 1 || k > order.len() {
        None
    } else if reachable(s, logged, order[step_index(start, k, order.len() as int, forward)]) {
        Some(k)
    } else if k == order.len() {
        None
    } else {
        scan(s, logged, order, start, forward, k + 1)
    }
}

/// The number of steps a cycle in `group` takes, if it finds a character.
pub open spec fn cycle_steps(s: CycleModel, group: Seq<char>, logged: Option<Map<u32, String>>, forward: bool) -> Option<int> {
    if s.groups.contains_key(group) && s.groups[group].order.len() > 0 {
        scan(s, logged, s.groups[group].order, s.groups[group].index, forward, 1)
    } else {
        None
    }
}

/// Whether cycling `group` from state `s` may lead to state `t` with
/// result `r`: when a character is found, the group's position moves to
/// it, it becomes the focus and it is returned with its window; otherwise
/// nothing changes.
pub open spec fn cycled(
    s: CycleModel,
    t: CycleModel,
    group: Seq<char>,
    logged: Option<Map<u32, String>>,
    forward: bool,
    r: Option<(u32, Seq<char>)>,
) -> bool {
    match cycle_steps(s, group, logged, forward) {
        None => r is None && t == s,
        Some(k) => {
            let g = s.groups[group];
            let i = step_index(g.index, k, g.order.len() as int, forward);
            &&& r is Some
            &&& r.unwrap().1 == g.order[i]
            &&& window_for(s, logged, g.order[i], r.unwrap().0)
            &&& t == (CycleModel {
                groups: s.groups.insert(group, GroupModel { order: g.order, index: i }),
                current_window: Some(r.unwrap().0),
                ..s
            })
        },
    }
}

/// The state with `name`'s skip mark flipped.
pub open spec fn with_skip_toggled(s: CycleModel, name: Seq<char>) -> CycleModel {
    CycleModel {
        skipped: if s.skipped.contains(name) { s.skipped.remove(name) } else { s.skipped.insert(name) },
        ..s
    }
}

/// Toggling a character's skip mark twice leaves the state as it was.
pub proof fn lemma_toggle_skip_twice(s: CycleModel, name: Seq<char>)
    ensures
        with_skip_toggled(with_skip_toggled(s, name), name) == s,
{
    assert(with_skip_toggled(with_skip_toggled(s, name), name).skipped =~= s.skipped);
}

/// One more step from the position `k` steps away.
proof fn lemma_next_step(start: int, k: int, len: int, forward: bool)
    requires
        0 < len,
    ensures
        0 <= step_index(start, k, len, forward) < len,
        step_index(start, k + 1, len, forward) == (if forward {
            if step_index(start, k, len, forward) + 1 == len { 0 } else { step_index(start, k, len, forward) + 1 }
        } else {
            if step_index(start, k, len, forward) == 0 { len - 1 } else { step_index(start, k, len, forward) - 1 }
        }),
{
    let x = if forward { start + k } else { start - k };
    let y = if forward { start + k + 1 } else { start - k - 1 };
    let q = x / len;
    let r = x % len;
    vstd::arithmetic::div_mod::lemma_fundamental_div_mod(x, len);
    vstd::arithmetic::div_mod::lemma_mod_bound(x, len);
    assert(x == q * len + r) by (nonlinear_arith)
        requires x == len * (x / len) + (x % len), q == x / len, r == x % len;
    if forward {
        if r + 1 == len {
            assert(y == (q + 1) * len + 0) by (nonlinear_arith)
                requires y == x + 1, x == q * len + r, r + 1 == len;
            vstd::arithmetic::div_mod::lemma_fundamental_div_mod_converse(y, len, q + 1, 0);
        } else {
            vstd::arithmetic::div_mod::lemma_fundamental_div_mod_converse(y, len, q, r + 1);
        }
    } else {
        if r == 0 {
            assert(y == (q - 1) * len + (len - 1)) by (nonlinear_arith)
                requires y == x - 1, x == q * len + r, r == 0;
            vstd::arithmetic::div_mod::lemma_fundamental_div_mod_converse(y, len, q - 1, len - 1);
        } else {
            vstd::arithmetic::div_mod::lemma_fundamental_div_mod_converse(y, len, q, r - 1);
        }
    }
}

/// A found step count is reachable and every step before it (from `k0`)
/// is not.
proof fn lemma_scan_found(
    s: CycleModel,
    logged: Option<Map<u32, String>>,
    order: Seq<Seq<char>>,
    start: int,
    forward: bool,
    k0: int,
)
    requires
        scan(s, logged, order, start, forward, k0) is Some,
    ensures
        ({
            let k = scan(s, logged, order, start, forward, k0).unwrap();
            &&& 1 <= k0 <= k <= order.len()
            &&& reachable(s, logged, order[step_index(start, k, order.len() as int, forward)])
            &&& forall|j: int| k0 <= j < k ==> !reachable(s, logged, #[trigger] order[step_index(start, j, order.len() as int, forward)])
        }),
    decreases order.len() - k0,
{
    if k0 < 1 || k0 > order.len() {
    } else if reachable(s, logged, order[step_index(start, k0, order.len() as int, forward)]) {
    } else if k0 == order.len() {
    } else {
        lemma_scan_found(s, logged, order, start, forward, k0 + 1);
    }
}

/// The first reachable step count at or after `k0` is what the scan finds.
proof fn lemma_scan_first(
    s: CycleModel,
    logged: Option<Map<u32, String>>,
    order: Seq<Seq<char>>,
    start: int,
    forward: bool,
    k0: int,
    k: int,
)
    requires
        1 <= k0 <= k <= order.len(),
        reachable(s, logged, order[step_index(start, k, order.len() as int, forward)]),
        forall|j: int| k0 <= j < k ==> !reachable(s, logged, #[trigger] order[step_index(start, j, order.len() as int, forward)]),
    ensures
        scan(s, logged, order, start, forward, k0) == Some(k),
    decreases k - k0,
{
    if k0 < k {
        assert(!reachable(s, logged, order[step_index(start, k0, order.len() as int, forward)]));
        lemma_scan_first(s, logged, order, start, forward, k0 + 1, k);
    }
}

/// A scan that finds nothing passes no reachable step.
proof fn lemma_scan_none(
    s: CycleModel,
    logged: Option<Map<u32, String>>,
    order: Seq<Seq<char>>,
    start: int,
    forward: bool,
    k0: int,
    k: int,
)
    requires
        scan(s, logged, order, start, forward, k0) is None,
        1 <= k0 <= k <= order.len(),
    ensures
        !reachable(s, logged, order[step_index(start, k, order.len() as int, forward)]),
    decreases k - k0,
{
    if k0 < k {
        lemma_scan_none(s, logged, order, start, forward, k0 + 1, k);
    }
}

/// Adding to a remainder adds to the number it is the remainder of.
proof fn lemma_mod_shift(x: int, y: int, len: int)
    requires
        0 < len,
    ensures
        ((x % len) + y) % len == (x + y) % len,
{
    vstd::arithmetic::div_mod::lemma_fundamental_div_mod(x, len);
    let q = x / len;
    assert((x % len) + y == len * (-q) + (x + y)) by (nonlinear_arith)
        requires x == len * q + (x % len);
    vstd::arithmetic::div_mod::lemma_mod_multiples_vanish(-q, x + y, len);
}

/// Stepping `b` back from `a` steps away is being `a - b` steps away.
proof fn lemma_step_back(start: int, a: int, b: int, len: int, forward: bool)
    requires
        0 < len,
    ensures
        step_index(step_index(start, a, len, forward), b, len, !forward) == step_index(start, a - b, len, forward),
{
    if forward {
        lemma_mod_shift(start + a, -b, len);
    } else {
        lemma_mod_shift(start - a, b, len);
    }
}

/// Cycling a group one way and then the other way comes back to where it
/// started, when the character there is reachable: the second cycle
/// returns that character and every group is where it was.
pub proof fn lemma_cycle_back_returns(
    s0: CycleModel,
    s1: CycleModel,
    s2: CycleModel,
    group: Seq<char>,
    logged: Option<Map<u32, String>>,
    forward: bool,
    r1: Option<(u32, Seq<char>)>,
    r2: Option<(u32, Seq<char>)>,
)
    requires
        groups_in_range(s0.groups),
        s0.groups.contains_key(group),
        s0.groups[group].order.len() > 0,
        reachable(s0, logged, s0.groups[group].order[s0.groups[group].index]),
        cycled(s0, s1, group, logged, forward, r1),
        cycled(s1, s2, group, logged, !forward, r2),
    ensures
        s2.groups == s0.groups,
        r2 is Some,
        r2.unwrap().1 == s0.groups[group].order[s0.groups[group].index],
{
    let g = s0.groups[group];
    let order = g.order;
    let len = order.len() as int;
    let start = g.index;
    assert(0 <= start < len);
    vstd::arithmetic::div_mod::lemma_small_mod(start as nat, len as nat);
    if forward {
        vstd::arithmetic::div_mod::lemma_mod_multiples_vanish(1, start, len);
        assert(step_index(start, len, len, forward) == start);
    } else {
        vstd::arithmetic::div_mod::lemma_mod_multiples_vanish(-1, start, len);
        assert(start - len == len * (-1) + start);
        assert(step_index(start, len, len, forward) == start);
    }
    if scan(s0, logged, order, start, forward, 1) is None {
        lemma_scan_none(s0, logged, order, start, forward, 1, len);
    }
    lemma_scan_found(s0, logged, order, start, forward, 1);
    let kf = scan(s0, logged, order, start, forward, 1).unwrap();
    let j = step_index(start, kf, len, forward);
    assert(s1.groups[group] == (GroupModel { order, index: j }));
    let back = !forward;
    assert forall|m: int| 1 <= m < kf implies !reachable(s1, logged, #[trigger] order[step_index(j, m, len, back)]) by {
        lemma_step_back(start, kf, m, len, forward);
        assert(order[step_index(start, kf - m, len, forward)] == order[step_index(j, m, len, back)]);
    };
    lemma_step_back(start, kf, kf, len, forward);
    assert(step_index(start, 0, len, forward) == start);
    lemma_scan_first(s1, logged, order, j, back, 1, kf);
    assert(s2.groups =~= s0.groups);
}

/// The first position of `name` in `order`.
pub open spec fn first_position(order: Seq<Seq<char>>, name: Seq<char>) -> Option<int> {
    if exists|i: int| 0 <= i < order.len() && #[trigger] order[i] == name {
        Some(choose|i: int| 0 <= i < order.len() && #[trigger] order[i] == name
            && forall|j: int| 0 <= j < i ==> #[trigger] order[j] != name)
    } else {
        None
    }
}

/// `first_position` picks the first occurrence.
pub proof fn lemma_first_position(order: Seq<Seq<char>>, name: Seq<char>, i: int)
    requires
        0 <= i < order.len(),
        order[i] == name,
        forall|j: int| 0 <= j < i ==> #[trigger] order[j] != name,
    ensures
        first_position(order, name) == Some(i),
{
    assert(0 <= i < order.len() && order[i] == name && forall|j: int| 0 <= j < i ==> #[trigger] order[j] != name);
    let k = choose|k: int| 0 <= k < order.len() && #[trigger] order[k] == name
        && forall|j: int| 0 <= j < k ==> #[trigger] order[j] != name;
    if k < i {
        assert(order[k] != name);
    }
    if i < k {
        assert(order[i] != name);
    }
}

/// A name that occurs has a first occurrence, which `first_position` gives.
pub proof fn lemma_first_position_found(order: Seq<Seq<char>>, name: Seq<char>)
    requires
        first_position(order, name) is Some,
    ensures
        0 <= first_position(order, name).unwrap() < order.len(),
        order[first_position(order, name).unwrap()] == name,
{
    let w = choose|i: int| 0 <= i < order.len() && #[trigger] order[i] == name;
    lemma_first_from(order, name, 0, w);
}

proof fn lemma_first_from(order: Seq<Seq<char>>, name: Seq<char>, k: int, w: int)
    requires
        0 <= k <= w < order.len(),
        order[w] == name,
        forall|j: int| 0 <= j < k ==> #[trigger] order[j] != name,
    ensures
        0 <= first_position(order, name).unwrap() < order.len(),
        order[first_position(order, name).unwrap()] == name,
    decreases w - k,
{
    if order[k] == name {
        lemma_first_position(order, name, k);
    } else {
        lemma_first_from(order, name, k + 1, w);
    }
}

/// A group pointed at `name` when it holds it.
pub open spec fn point_group(g: GroupModel, name: Seq<char>) -> GroupModel {
    match first_position(g.order, name) {
        Some(i) => GroupModel { order: g.order, index: i },
        None => g,
    }
}

/// Every group pointed at `name` where it holds it.
pub open spec fn point_groups(groups: Map<Seq<char>, GroupModel>, name: Seq<char>) -> Map<Seq<char>, GroupModel> {
    Map::new(|g: Seq<char>| groups.contains_key(g), |g: Seq<char>| point_group(groups[g], name))
}

/// Whether some group holds `name`.
pub open spec fn in_some_group(groups: Map<Seq<char>, GroupModel>, name: Seq<char>) -> bool {
    exists|g: Seq<char>| #[trigger] groups.contains_key(g) && first_position(groups[g].order, name) is Some
}

/// Position of the first `name` in `order`.
fn position_of(order: &Vec<String>, name: &str) -> (r: Option<usize>)
    ensures
        r is None ==> first_position(string_views(order@), name@) is None,
        r matches Some(i) ==> first_position(string_views(order@), name@) == Some(i as int) && i < order@.len(),
{
    let ghost v = string_views(order@);
    let mut i: usize = 0;
    while i < order.len()
        invariant
            i <= order@.len(),
            v == string_views(order@),
            forall|j: int| 0 <= j < i ==> #[trigger] v[j] != name@,
        decreases order@.len() - i,
    {
        if str_eq(order[i].as_str(), name) {
            proof { lemma_first_position(v, name@, i as int); }
            return Some(i);
        }
        i = i + 1;
    }
    proof {
        if exists|i: int| 0 <= i < v.len() && #[trigger] v[i] == name@ {
            let w = choose|i: int| 0 <= i < v.len() && #[trigger] v[i] == name@;
            assert(v[w] != name@);
        }
    }
    None
}

/// The order of the "Default" group, if there is one.
pub open spec fn default_order(s: CycleModel) -> Option<Seq<Seq<char>>> {
    if s.groups.contains_key("Default"@) {
        Some(s.groups["Default"@].order)
    } else {
        None
    }
}

/// The first position of `name` in the order `d`, if any.
pub open spec fn rank_position(d: Option<Seq<Seq<char>>>, name: Seq<char>) -> Option<int> {
    match d {
        Some(o) => first_position(o, name),
        None => None,
    }
}

/// Order of the characters sharing a hotkey: those in `d` first, by their
/// position there, then the others alphabetically.
pub open spec fn ranked_before(d: Option<Seq<Seq<char>>>, a: Seq<char>, b: Seq<char>) -> bool {
    match (rank_position(d, a), rank_position(d, b)) {
        (Some(i), Some(j)) => i <= j,
        (Some(_), None) => true,
        (None, Some(_)) => false,
        (None, None) => lex_le(a, b),
    }
}

/// Whether `c` is in `ranked_before` order.
pub open spec fn sorted_by_rank(d: Option<Seq<Seq<char>>>, c: Seq<Seq<char>>) -> bool {
    forall|i: int, j: int| 0 <= i < j < c.len() ==> ranked_before(d, #[trigger] c[i], #[trigger] c[j])
}

proof fn lemma_ranked_total(d: Option<Seq<Seq<char>>>, a: Seq<char>, b: Seq<char>)
    ensures
        ranked_before(d, a, b) || ranked_before(d, b, a),
{
    lemma_lex_total(a, b);
}

proof fn lemma_ranked_transitive(d: Option<Seq<Seq<char>>>, a: Seq<char>, b: Seq<char>, c: Seq<char>)
    requires
        ranked_before(d, a, b),
        ranked_before(d, b, c),
    ensures
        ranked_before(d, a, c),
{
    if rank_position(d, a) is None && rank_position(d, b) is None && rank_position(d, c) is None {
        lemma_lex_transitive(a, b, c);
    }
}

pub open spec fn opt_views(d: Option<&Vec<String>>) -> Option<Seq<Seq<char>>> {
    match d {
        Some(v) => Some(string_views(v@)),
        None => None,
    }
}

/// Whether `a` ranks at or before `b`.
fn ranks_before(d: Option<&Vec<String>>, a: &str, b: &str) -> (r: bool)
    ensures
        r == ranked_before(opt_views(d), a@, b@),
{
    let (pa, pb) = match d {
        Some(order) => (position_of(order, a), position_of(order, b)),
        None => (None, None),
    };
    match (pa, pb) {
        (Some(i), Some(j)) => i <= j,
        (Some(_), None) => true,
        (None, Some(_)) => false,
        (None, None) => str_le(a, b),
    }
}

/// `names` in `ranked_before` order.
fn sort_by_rank(d: Option<&Vec<String>>, names: &[String]) -> (c: Vec<String>)
    ensures
        string_views(c@).to_multiset() == string_views(names@).to_multiset(),
        sorted_by_rank(opt_views(d), string_views(c@)),
{
    let ghost dv = opt_views(d);
    let mut c: Vec<String> = Vec::new();
    let mut i: usize = 0;
    assert(string_views(c@) =~= string_views(names@.subrange(0, 0)));
    while i < names.len()
        invariant
            i <= names@.len(),
            dv == opt_views(d),
            string_views(c@).to_multiset() == string_views(names@.subrange(0, i as int)).to_multiset(),
            sorted_by_rank(dv, string_views(c@)),
        decreases names@.len() - i,
    {
        let x = names[i].clone();
        let mut j: usize = 0;
        while j < c.len() && ranks_before(d, c[j].as_str(), x.as_str())
            invariant
                j <= c@.len(),
                dv == opt_views(d),
                forall|t: int| 0 <= t < j ==> ranked_before(dv, #[trigger] c@[t]@, x@),
            decreases c@.len() - j,
        {
            j = j + 1;
        }
        let ghost before = string_views(c@);
        proof {
            if j < c@.len() {
                lemma_ranked_total(dv, before[j as int], x@);
            }
        }
        c.insert(j, x);
        proof {
            let after = string_views(c@);
            assert(after =~= before.insert(j as int, x@));
            vstd::seq_lib::to_multiset_insert(before, j as int, x@);
            let prev = string_views(names@.subrange(0, i as int));
            let next = string_views(names@.subrange(0, i + 1));
            assert(next =~= prev.push(x@));
            vstd::seq_lib::to_multiset_build(prev, x@);
            assert forall|a: int, b: int| 0 <= a < b < after.len() implies ranked_before(dv, #[trigger] after[a], #[trigger] after[b]) by {
                if a < j && b == j {
                } else if a < j && b > j {
                    assert(after[a] == before[a] && after[b] == before[b - 1]);
                } else if a == j {
                    assert(after[b] == before[b - 1]);
                    if b - 1 > j {
                        lemma_ranked_transitive(dv, x@, before[j as int], before[b - 1]);
                    }
                } else if b < j {
                    assert(after[a] == before[a] && after[b] == before[b]);
                } else {
                    assert(after[a] == before[a - 1] && after[b] == before[b - 1]);
                }
            };
        }
        i = i + 1;
    }
    assert(names@.subrange(0, names@.len() as int) =~= names@);
    c
}

proof fn lemma_ranked_antisymmetric(d: Option<Seq<Seq<char>>>, a: Seq<char>, b: Seq<char>)
    requires
        ranked_before(d, a, b),
        ranked_before(d, b, a),
    ensures
        a == b,
{
    match (rank_position(d, a), rank_position(d, b)) {
        (Some(i), Some(j)) => {
            lemma_first_position_found(d.unwrap(), a);
            lemma_first_position_found(d.unwrap(), b);
        },
        (None, None) => {
            lemma_lex_antisymmetric(a, b);
        },
        _ => {},
    }
}

/// The order of the characters sharing a hotkey is fully determined: any
/// two arrangements of the same characters in `ranked_before` order are
/// the same sequence.
pub proof fn lemma_rank_order_unique(d: Option<Seq<Seq<char>>>, c1: Seq<Seq<char>>, c2: Seq<Seq<char>>)
    requires
        c1.to_multiset() == c2.to_multiset(),
        sorted_by_rank(d, c1),
        sorted_by_rank(d, c2),
    ensures
        c1 == c2,
    decreases c1.len(),
{
    c1.to_multiset_ensures();
    c2.to_multiset_ensures();
    if c1.len() == 0 {
        assert(c2.len() == 0);
        assert(c1 =~= c2);
    } else {
        assert(c2.len() == c1.len());
        let x = c1[0];
        let y = c2[0];
        assert(c1.contains(x));
        assert(c2.to_multiset().count(x) > 0);
        assert(c2.contains(x));
        let p = choose|p: int| 0 <= p < c2.len() && c2[p] == x;
        if p > 0 {
            assert(ranked_before(d, c2[0], c2[p]));
        } else {
            lemma_ranked_total(d, y, x);
        }
        assert(c1.to_multiset().count(y) > 0);
        assert(c1.contains(y));
        let q = choose|q: int| 0 <= q < c1.len() && c1[q] == y;
        if q > 0 {
            assert(ranked_before(d, c1[0], c1[q]));
        } else {
            lemma_ranked_total(d, x, y);
        }
        lemma_ranked_antisymmetric(d, x, y);
        let t1 = c1.remove(0);
        let t2 = c2.remove(0);
        assert(t1 =~= c1.drop_first());
        assert(t2 =~= c2.drop_first());
        assert(t1.to_multiset() == t2.to_multiset());
        assert forall|i: int, j: int| 0 <= i < j < t1.len() implies ranked_before(d, #[trigger] t1[i], #[trigger] t1[j]) by {
            assert(t1[i] == c1[i + 1] && t1[j] == c1[j + 1]);
        };
        assert forall|i: int, j: int| 0 <= i < j < t2.len() implies ranked_before(d, #[trigger] t2[i], #[trigger] t2[j]) by {
            assert(t2[i] == c2[i + 1] && t2[j] == c2[j + 1]);
        };
        lemma_rank_order_unique(d, t1, t2);
        assert(c1 =~= c2) by {
            assert forall|i: int| 0 <= i < c1.len() implies c1[i] == c2[i] by {
                if i > 0 {
                    assert(c1[i] == t1[i - 1] && c2[i] == t2[i - 1]);
                }
            };
        };
    }
}

/// Whether `owner` is the logged-in character found for the focused
/// window (`None` when there is no focus or it is no such window).
pub open spec fn focus_owner(s: CycleModel, owner: Option<Seq<char>>) -> bool {
    match s.current_window {
        None => owner is None,
        Some(cw) => match owner {
            None => !is_active_window(s.active, cw),
            Some(n) => s.active.contains_key(n) && s.active[n] == cw,
        },
    }
}

/// Where stepping through the candidates `c` starts: at the focused
/// window's character, else at the "Default" group's current character,
/// else at the last candidate.
pub open spec fn hotkey_start(s: CycleModel, c: Seq<Seq<char>>, owner: Option<Seq<char>>) -> int {
    let by_focus = match owner {
        Some(n) => first_position(c, n),
        None => None,
    };
    match by_focus {
        Some(p) => p,
        None => if s.groups.contains_key("Default"@) && s.groups["Default"@].order.len() > 0 {
            match first_position(c, s.groups["Default"@].order[s.groups["Default"@].index]) {
                Some(p) => p,
                None => c.len() - 1,
            }
        } else {
            c.len() - 1
        },
    }
}

/// Whether stepping forward through `c` from `start` leads from `s` to
/// `t` with result `r`: the first reachable candidate is activated as by
/// `activate_character`; nothing changes when there is none.
pub open spec fn stepped_to(
    s: CycleModel,
    t: CycleModel,
    c: Seq<Seq<char>>,
    start: int,
    logged: Option<Map<u32, String>>,
    r: Option<(u32, Seq<char>)>,
) -> bool {
    match scan(s, logged, c, start, true, 1) {
        None => r is None && t == s,
        Some(k) => {
            let n = c[step_index(start, k, c.len() as int, true)];
            &&& r is Some
            &&& r.unwrap().1 == n
            &&& window_for(s, logged, n, r.unwrap().0)
            &&& t == (CycleModel { groups: point_groups(s.groups, n), current_window: Some(r.unwrap().0), ..s })
        },
    }
}

/// A shared hotkey pressed while the focus is on none of the characters
/// sharing it (no focused window, a window of no logged-in character, or
/// one of a character outside the group), and without a "Default" group
/// position among them, activates the first of them in rank order when
/// that one is reachable: its window is returned with its name.
pub proof fn lemma_hotkey_without_focus_takes_first(
    s: CycleModel,
    t: CycleModel,
    group: Seq<Seq<char>>,
    logged: Option<Map<u32, String>>,
    r: Option<(u32, Seq<char>)>,
    first: Seq<char>,
)
    requires
        exists|c: Seq<Seq<char>>, owner: Option<Seq<char>>| {
            &&& c.to_multiset() == group.to_multiset()
            &&& sorted_by_rank(default_order(s), c)
            &&& focus_owner(s, owner)
            &&& stepped_to(s, t, c, #[trigger] hotkey_start(s, c, owner), logged, r)
        },
        match s.current_window {
            None => true,
            Some(cw) => forall|n: Seq<char>| #[trigger] s.active.contains_key(n) && s.active[n] == cw ==> !group.contains(n),
        },
        !(s.groups.contains_key("Default"@) && s.groups["Default"@].order.len() > 0
            && group.contains(s.groups["Default"@].order[s.groups["Default"@].index])),
        group.contains(first),
        forall|x: Seq<char>| #[trigger] group.contains(x) ==> ranked_before(default_order(s), first, x),
        reachable(s, logged, first),
    ensures
        r matches Some(p) && p.1 == first && window_for(s, logged, first, p.0),
{
    let (c, owner) = choose|c: Seq<Seq<char>>, owner: Option<Seq<char>>| {
        &&& c.to_multiset() == group.to_multiset()
        &&& sorted_by_rank(default_order(s), c)
        &&& focus_owner(s, owner)
        &&& stepped_to(s, t, c, #[trigger] hotkey_start(s, c, owner), logged, r)
    };
    c.to_multiset_ensures();
    group.to_multiset_ensures();
    assert forall|x: Seq<char>| c.contains(x) <==> group.contains(x) by {
        assert(c.contains(x) <==> c.to_multiset().count(x) > 0);
        assert(group.contains(x) <==> group.to_multiset().count(x) > 0);
    };
    if let Some(n) = owner {
        assert(!group.contains(n));
        assert(!c.contains(n));
        assert(first_position(c, n) is None);
    }
    if s.groups.contains_key("Default"@) && s.groups["Default"@].order.len() > 0 {
        let dn = s.groups["Default"@].order[s.groups["Default"@].index];
        assert(!c.contains(dn));
        assert(first_position(c, dn) is None);
    }
    let len = c.len() as int;
    assert(c.contains(first));
    let j = choose|j: int| 0 <= j < c.len() && c[j] == first;
    assert(len > 0);
    assert(hotkey_start(s, c, owner) == len - 1);
    assert(c.contains(c[0]));
    assert(ranked_before(default_order(s), first, c[0]));
    if j > 0 {
        assert(ranked_before(default_order(s), c[0], c[j]));
    } else {
        lemma_ranked_total(default_order(s), c[0], first);
    }
    lemma_ranked_antisymmetric(default_order(s), first, c[0]);
    assert(step_index(len - 1, 1, len, true) == 0) by {
        assert((len - 1 + 1) % len == 0) by (nonlinear_arith) requires len > 0;
    };
    assert(scan(s, logged, c, len - 1, true, 1) == Some(1int));
}

impl CycleState {
    #[verifier::type_invariant]
    spec fn well_formed(self) -> bool {
        groups_in_range(self.groups@)
    }

    /// One group per configured cycle group, each at its first character;
    /// no window, skipped character or focus yet.
    pub fn new(cycle_groups: Vec<CycleGroup>) -> (s: CycleState)
        ensures
            s@.groups == initial_groups(cycle_groups@.map_values(|g: CycleGroup| g@)),
            s@.current_window is None,
            s@.active == Map::<Seq<char>, u32>::empty(),
            s@.skipped == Set::<Seq<char>>::empty(),
    {
        let mut groups: NameMap<GroupState> = NameMap::new();
        let ghost views = cycle_groups@.map_values(|g: CycleGroup| g@);
        let mut i: usize = 0;
        while i < cycle_groups.len()
            invariant
                i <= cycle_groups@.len(),
                views == cycle_groups@.map_values(|g: CycleGroup| g@),
                groups@ == initial_groups(views.subrange(0, i as int)),
                groups_in_range(groups@),
            decreases cycle_groups@.len() - i,
        {
            let g = &cycle_groups[i];
            proof {
                let next = views.subrange(0, i + 1);
                assert(next.drop_last() =~= views.subrange(0, i as int));
                assert(next.last() == g@);
            }
            groups.insert(g.name.clone(), GroupState { order: copy_string_vec(&g.characters), current_index: 0 });
            i = i + 1;
        }
        assert(views.subrange(0, views.len() as int) =~= views);
        let skipped: NameMap<()> = NameMap::new();
        assert(skipped@.dom() =~= Set::<Seq<char>>::empty());
        CycleState {
            groups,
            current_window: None,
            active_windows: NameMap::new(),
            skipped_characters: skipped,
        }
    }

    /// Register the window of a character (a later window for the same
    /// character replaces the earlier one).
    pub fn add_window(&mut self, character_name: String, window: u32)
        ensures
            final(self)@ == (CycleModel { active: old(self)@.active.insert(character_name@, window), ..old(self)@ }),
    {
        let mut active: NameMap<u32> = NameMap::new();
        proof { use_type_invariant(&*self); }
        std::mem::swap(&mut active, &mut self.active_windows);
        active.insert(character_name, window);
        self.active_windows = active;
    }

    /// A logged-in character whose window is `window`.
    fn name_of_window(&self, window: u32) -> (r: Option<String>)
        ensures
            r matches Some(n) ==> self@.active.contains_key(n@) && self@.active[n@] == window,
            r is None ==> !is_active_window(self@.active, window),
    {
        let entries = self.active_windows.entries();
        proof { self.active_windows.lemma_entries(); }
        let mut i: usize = 0;
        while i < entries.len()
            invariant
                i <= entries@.len(),
                entries@ == self.active_windows.spec_entries(),
                crate::name_map::keys_distinct(entries@),
                self.active_windows@ == entries_map(entries@),
                forall|j: int| 0 <= j < i ==> #[trigger] entries@[j].1 != window,
            decreases entries@.len() - i,
        {
            if entries[i].1 == window {
                proof { lemma_entry_in_map(entries@, i as int); }
                return Some(entries[i].0.clone());
            }
            i = i + 1;
        }
        proof {
            assert forall|n: Seq<char>| self@.active.contains_key(n) implies #[trigger] self@.active[n] != window by {
                let j = key_index(entries@, n);
                lemma_entry_in_map(entries@, j);
            };
        }
        None
    }

    /// Forget the window `window`: the character showing it (if any) leaves
    /// the active windows, and the focus is cleared when it was that window.
    pub fn remove_window(&mut self, window: u32)
        ensures
            !is_active_window(old(self)@.active, window) ==> final(self)@ == old(self)@,
            is_active_window(old(self)@.active, window) ==> exists|n: Seq<char>| {
                &&& #[trigger] old(self)@.active.contains_key(n)
                &&& old(self)@.active[n] == window
                &&& final(self)@ == (CycleModel {
                    active: old(self)@.active.remove(n),
                    current_window: if old(self)@.current_window == Some(window) { None } else { old(self)@.current_window },
                    ..old(self)@
                })
            },
    {
        match self.name_of_window(window) {
            Some(name) => {
                let mut active: NameMap<u32> = NameMap::new();
                proof { use_type_invariant(&*self); }
        std::mem::swap(&mut active, &mut self.active_windows);
                active.remove(name.as_str());
                self.active_windows = active;
                if self.current_window == Some(window) {
                    self.current_window = None;
                }
            },
            None => {},
        }
    }

    /// The window `window` now shows `new_name`: the character it showed
    /// (if any) leaves the active windows and `new_name` gets the window.
    pub fn update_character(&mut self, window: u32, new_name: String)
        ensures
            !is_active_window(old(self)@.active, window) ==> final(self)@ == (CycleModel {
                active: old(self)@.active.insert(new_name@, window),
                ..old(self)@
            }),
            is_active_window(old(self)@.active, window) ==> exists|n: Seq<char>| {
                &&& #[trigger] old(self)@.active.contains_key(n)
                &&& old(self)@.active[n] == window
                &&& final(self)@ == (CycleModel {
                    active: old(self)@.active.remove(n).insert(new_name@, window),
                    ..old(self)@
                })
            },
    {
        if let Some(old_name) = self.name_of_window(window) {
            let mut active: NameMap<u32> = NameMap::new();
            proof { use_type_invariant(&*self); }
            std::mem::swap(&mut active, &mut self.active_windows);
            active.remove(old_name.as_str());
            self.active_windows = active;
        }
        self.add_window(new_name, window);
    }

    /// Skip `character_name` if it was not skipped, stop skipping it
    /// otherwise. Returns whether it is skipped now.
    pub fn toggle_skip(&mut self, character_name: &str) -> (skipped: bool)
        ensures
            skipped == !old(self)@.skipped.contains(character_name@),
            final(self)@ == with_skip_toggled(old(self)@, character_name@),
    {
        let mut skipped: NameMap<()> = NameMap::new();
        proof { use_type_invariant(&*self); }
        std::mem::swap(&mut skipped, &mut self.skipped_characters);
        let now_skipped = if skipped.contains_key(character_name) {
            skipped.remove(character_name);
            false
        } else {
            skipped.insert(owned(character_name), ());
            true
        };
        self.skipped_characters = skipped;
        assert(now_skipped ==> self@.skipped =~= old(self)@.skipped.insert(character_name@));
        assert(!now_skipped ==> self@.skipped =~= old(self)@.skipped.remove(character_name@));
        now_skipped
    }

    /// Whether `character_name` is skipped.
    pub fn is_skipped(&self, character_name: &str) -> (b: bool)
        ensures
            b == self@.skipped.contains(character_name@),
    {
        self.skipped_characters.contains_key(character_name)
    }

    /// The window to use for `name`: its own window when logged in, else a
    /// logged-out window that last showed it.
    fn window_of(&self, name: &str, logged_out_map: Option<&HashMap<u32, String>>) -> (r: Option<u32>)
        ensures
            r is Some <==> (self@.active.contains_key(name@) || logged_has(logged_view(logged_out_map), name@)),
            r matches Some(w) ==> window_for(self@, logged_view(logged_out_map), name@, w),
    {
        if let Some(w) = self.active_windows.get(name) {
            return Some(*w);
        }
        match logged_out_map {
            Some(map) => {
                for pair in it: map.iter()
                    invariant
                        !self@.active.contains_key(name@),
                        logged_out_map == Some(map),
                        forall|w: u32| #[trigger] map@.contains_key(w) && map@[w]@ == name@ ==>
                            exists|i: int| it.index() <= i < it.seq().len() && *(#[trigger] it.seq()[i]).0 == w,
                {
                    let (w, c) = pair;
                    if str_eq(c.as_str(), name) {
                        assert(map@.contains_key(*w) && map@[*w]@ == name@);
                        assert(shows_last(map@, name@));
                        return Some(*w);
                    }
                }
                None
            },
            None => None,
        }
    }

    /// Step through `group_name`'s order from its position, one way or the
    /// other, to the first reachable character.
    fn cycle(&mut self, group_name: &str, logged_out_map: Option<&HashMap<u32, String>>, forward: bool) -> (r: Option<(u32, String)>)
        ensures
            cycled(old(self)@, final(self)@, group_name@, logged_view(logged_out_map), forward, result_view(r)),
    {
        proof { use_type_invariant(&*self); }
        let ghost s = self@;
        let ghost logged = logged_view(logged_out_map);
        let k = match self.groups.find(group_name) {
            Some(k) => k,
            None => return None,
        };
        let _ = self.groups.entries();
        proof { lemma_entry_in_map(self.groups.spec_entries(), k as int); }
        let g = self.groups.value_at(k);
        let len = g.order.len();
        if len == 0 {
            return None;
        }
        let ghost order = s.groups[group_name@].order;
        let start = g.current_index;
        assert(start < len);
        if self.active_windows.is_empty() && logged_out_map.is_none() {
            let _ = self.active_windows.entries();
            proof {
                self.active_windows.lemma_entries();
                self.active_windows@.dom().lemma_len0_is_empty();
                assert forall|j: int| 1 <= j <= len implies !reachable(s, logged, #[trigger] order[step_index(start as int, j, len as int, forward)]) by {
                    assert(!s.active.dom().contains(order[step_index(start as int, j, len as int, forward)]));
                };
                if scan(s, logged, order, start as int, forward, 1) is Some {
                    lemma_scan_found(s, logged, order, start as int, forward, 1);
                    let kk = scan(s, logged, order, start as int, forward, 1).unwrap();
                    assert(!reachable(s, logged, order[step_index(start as int, kk, len as int, forward)]));
                }
            }
            return None;
        }
        let mut idx = start;
        let mut taken: usize = 0;
        proof { vstd::arithmetic::div_mod::lemma_small_mod(start as nat, len as nat); }
        while taken < len
            invariant
                taken <= len,
                s == old(self)@,
                len == order.len(),
                start < len,
                self@ == s,
                s.groups.contains_key(group_name@),
                g@ == s.groups[group_name@],
                g.order.len() == len,
                order == s.groups[group_name@].order,
                start == s.groups[group_name@].index,
                idx == step_index(start as int, taken as int, len as int, forward),
                scan(s, logged, order, start as int, forward, 1) == scan(s, logged, order, start as int, forward, taken + 1),
                k < self.groups.spec_entries().len(),
                self.groups.spec_entries()[k as int].0@ == group_name@,
                logged == logged_view(logged_out_map),
                groups_in_range(s.groups),
            decreases len - taken,
        {
            proof { lemma_next_step(start as int, taken as int, len as int, forward); }
            idx = if forward {
                if idx + 1 == len { 0 } else { idx + 1 }
            } else {
                if idx == 0 { len - 1 } else { idx - 1 }
            };
            taken = taken + 1;
            assert(g.order@[idx as int]@ == order[idx as int]);
            if !self.is_skipped(g.order[idx].as_str()) {
                if let Some(w) = self.window_of(g.order[idx].as_str(), logged_out_map) {
                    let name = g.order[idx].clone();
                    assert(scan(s, logged, order, start as int, forward, taken as int) == Some(taken as int));
                    let mut groups: NameMap<GroupState> = NameMap::new();
                    std::mem::swap(&mut groups, &mut self.groups);
                    let mut moved = groups.replace_value_at(k, GroupState { order: Vec::new(), current_index: 0 });
                    moved.current_index = idx;
                    groups.set_value_at(k, moved);
                    self.groups = groups;
                    self.current_window = Some(w);
                    proof {
                        assert(self@ =~= (CycleModel {
                            groups: s.groups.insert(group_name@, GroupModel { order, index: idx as int }),
                            current_window: Some(w),
                            ..s
                        }));
                    }
                    return Some((w, name));
                }
            }
        }
        None
    }

    /// Move to the next reachable character of `group_name` (wrapping
    /// around) and return its window and name; `None` when the group is
    /// unknown or empty or no character of it is reachable.
    /// `logged_out_map` gives, for logged-out clients to include, the last
    /// character each showed.
    pub fn cycle_forward(&mut self, group_name: &str, logged_out_map: Option<&HashMap<u32, String>>) -> (r: Option<(u32, String)>)
        ensures
            cycled(old(self)@, final(self)@, group_name@, logged_view(logged_out_map), true, result_view(r)),
    {
        self.cycle(group_name, logged_out_map, true)
    }

    /// Move to the previous reachable character of `group_name`, as
    /// `cycle_forward` does the other way.
    pub fn cycle_backward(&mut self, group_name: &str, logged_out_map: Option<&HashMap<u32, String>>) -> (r: Option<(u32, String)>)
        ensures
            cycled(old(self)@, final(self)@, group_name@, logged_view(logged_out_map), false, result_view(r)),
    {
        self.cycle(group_name, logged_out_map, false)
    }

    /// Point every group that holds `name` at its first occurrence there.
    /// Returns whether some group holds it.
    fn point_all_groups(&mut self, name: &str) -> (found: bool)
        ensures
            final(self)@ == (CycleModel { groups: point_groups(old(self)@.groups, name@), ..old(self)@ }),
            found == in_some_group(old(self)@.groups, name@),
    {
        proof { use_type_invariant(&*self); }
        let mut groups: NameMap<GroupState> = NameMap::new();
        std::mem::swap(&mut groups, &mut self.groups);
        let ghost orig = groups@;
        let ghost orig_entries = groups.spec_entries();
        let _ = groups.entries();
        proof { groups.lemma_entries(); }
        let n = groups.len();
        let mut found = false;
        let mut k: usize = 0;
        while k < n
            invariant
                k <= n,
                n == orig_entries.len(),
                crate::name_map::keys_distinct(orig_entries),
                orig == entries_map(orig_entries),
                groups.spec_entries().len() == n,
                forall|j: int| 0 <= j < n ==> #[trigger] groups.spec_entries()[j].0@ == orig_entries[j].0@,
                groups@.dom() == orig.dom(),
                forall|j: int| 0 <= j < k ==> groups@[#[trigger] orig_entries[j].0@] == point_group(orig[orig_entries[j].0@], name@),
                forall|j: int| k <= j < n ==> groups@[#[trigger] orig_entries[j].0@] == orig[orig_entries[j].0@],
                found == exists|j: int| 0 <= j < k && first_position(orig[#[trigger] orig_entries[j].0@].order, name@) is Some,
                groups_in_range(groups@),
                groups_in_range(orig),
                self.current_window == old(self).current_window,
                self.active_windows == old(self).active_windows,
                self.skipped_characters == old(self).skipped_characters,
                old(self)@.groups == orig,
            decreases n - k,
        {
            proof {
                lemma_entry_in_map(orig_entries, k as int);
                assert(orig.contains_key(orig_entries[k as int].0@));
            }
            let mut gs = groups.replace_value_at(k, GroupState { order: Vec::new(), current_index: 0 });
            match position_of(&gs.order, name) {
                Some(i) => {
                    gs.current_index = i;
                    found = true;
                },
                None => {},
            }
            proof {
                let key = orig_entries[k as int].0@;
                assert(gs@ == point_group(orig[key], name@));
                assert(gs@.index == 0 || 0 <= gs@.index < gs@.order.len());
            }
            groups.set_value_at(k, gs);
            proof {
                let key = orig_entries[k as int].0@;
                assert forall|j: int| 0 <= j < n && j != k implies #[trigger] orig_entries[j].0@ != key by {};
            }
            k = k + 1;
        }
        self.groups = groups;
        proof {
            assert forall|q: Seq<char>| #[trigger] orig.contains_key(q) implies self.groups@[q] == point_group(orig[q], name@) by {
                let j = key_index(orig_entries, q);
                assert(orig_entries[j].0@ == q);
            };
            assert(self@.groups =~= point_groups(orig, name@));
            assert(self@ =~= (CycleModel { groups: point_groups(old(self)@.groups, name@), ..old(self)@ }));
            if in_some_group(orig, name@) {
                let g = choose|g: Seq<char>| #[trigger] orig.contains_key(g) && first_position(orig[g].order, name@) is Some;
                let j = key_index(orig_entries, g);
                assert(orig_entries[j].0@ == g);
            }
            if found {
                let j = choose|j: int| 0 <= j < n && first_position(orig[#[trigger] orig_entries[j].0@].order, name@) is Some;
                lemma_entry_in_map(orig_entries, j);
            }
        }
        found
    }

    /// Switch to `character_name` (a per-character hotkey): use its window
    /// when logged in, else a logged-out window that last showed it; point
    /// every group that holds it there and make the window the focus.
    /// `None`, changing nothing, when it has no window.
    pub fn activate_character<'a>(
        &mut self,
        character_name: &'a str,
        logged_out_map: Option<&HashMap<u32, String>>,
    ) -> (r: Option<(u32, &'a str)>)
        ensures
            (old(self)@.active.contains_key(character_name@) || logged_has(logged_view(logged_out_map), character_name@)) ==> {
                &&& r is Some
                &&& r.unwrap().1 == character_name
                &&& window_for(old(self)@, logged_view(logged_out_map), character_name@, r.unwrap().0)
                &&& final(self)@ == (CycleModel {
                    groups: point_groups(old(self)@.groups, character_name@),
                    current_window: Some(r.unwrap().0),
                    ..old(self)@
                })
            },
            !(old(self)@.active.contains_key(character_name@) || logged_has(logged_view(logged_out_map), character_name@))
                ==> r is None && final(self)@ == old(self)@,
    {
        match self.window_of(character_name, logged_out_map) {
            Some(w) => {
                self.point_all_groups(character_name);
                proof { use_type_invariant(&*self); }
                self.current_window = Some(w);
                Some((w, character_name))
            },
            None => None,
        }
    }

    /// Make `character_name` current (a thumbnail was clicked): its window
    /// becomes the focus when it is logged in, and every group that holds
    /// it points at it. Returns whether some group holds it.
    pub fn set_current(&mut self, character_name: &str) -> (found: bool)
        ensures
            final(self)@ == (CycleModel {
                groups: point_groups(old(self)@.groups, character_name@),
                current_window: if old(self)@.active.contains_key(character_name@) {
                    Some(old(self)@.active[character_name@])
                } else {
                    old(self)@.current_window
                },
                ..old(self)@
            }),
            found == in_some_group(old(self)@.groups, character_name@),
    {
        proof { use_type_invariant(&*self); }
        if let Some(w) = self.active_windows.get(character_name) {
            self.current_window = Some(*w);
        }
        self.point_all_groups(character_name)
    }

    /// The focus moved to `window`: it becomes the focus, and when it is the
    /// window of a logged-in character, that character is made current.
    /// Returns whether the window belongs to a logged-in character.
    pub fn set_current_by_window(&mut self, window: u32) -> (known: bool)
        ensures
            known == is_active_window(old(self)@.active, window),
            !known ==> final(self)@ == (CycleModel { current_window: Some(window), ..old(self)@ }),
            known ==> exists|n: Seq<char>| {
                &&& #[trigger] old(self)@.active.contains_key(n)
                &&& old(self)@.active[n] == window
                &&& final(self)@ == (CycleModel {
                    groups: point_groups(old(self)@.groups, n),
                    current_window: Some(window),
                    ..old(self)@
                })
            },
    {
        proof { use_type_invariant(&*self); }
        self.current_window = Some(window);
        match self.name_of_window(window) {
            Some(name) => {
                self.set_current(name.as_str());
                true
            },
            None => false,
        }
    }

    /// Step to the next character among `group`, the characters sharing a
    /// hotkey. The candidates are ordered by `ranked_before` (by position in
    /// the "Default" group, then alphabetically); stepping starts after the
    /// focused window's character (else the "Default" group's current
    /// character, else the last candidate) and activates the first
    /// candidate that is not skipped and has a window, as
    /// `activate_character` does.
    #[verifier::spinoff_prover]
    #[verifier::rlimit(30)]
    pub fn activate_next_in_group(
        &mut self,
        group: &[String],
        logged_out_map: Option<&HashMap<u32, String>>,
    ) -> (r: Option<(u32, String)>)
        ensures
            exists|c: Seq<Seq<char>>, owner: Option<Seq<char>>| {
                &&& c.to_multiset() == string_views(group@).to_multiset()
                &&& sorted_by_rank(default_order(old(self)@), c)
                &&& focus_owner(old(self)@, owner)
                &&& stepped_to(old(self)@, final(self)@, c, #[trigger] hotkey_start(old(self)@, c, owner),
                    logged_view(logged_out_map), result_view(r))
            },
    {
        proof { use_type_invariant(&*self); }
        let ghost s = self@;
        let ghost logged = logged_view(logged_out_map);
        let default_group = self.groups.get("Default");
        let candidates = match default_group {
            Some(g) => sort_by_rank(Some(&g.order), group),
            None => sort_by_rank(None, group),
        };
        let ghost c = string_views(candidates@);
        assert(opt_views(match default_group { Some(g) => Some(&g.order), None => None }) == default_order(s));
        let owner = match self.current_window {
            Some(cw) => self.name_of_window(cw),
            None => None,
        };
        let ghost owner_view = opt_view(owner);
        let len = candidates.len();
        if len == 0 {
            assert(scan(s, logged, c, hotkey_start(s, c, owner_view), true, 1) is None);
            return None;
        }
        let by_focus = match &owner {
            Some(n) => position_of(&candidates, n.as_str()),
            None => None,
        };
        let start = match by_focus {
            Some(p) => p,
            None => match default_group {
                Some(g) => if g.order.len() > 0 {
                    match position_of(&candidates, g.order[g.current_index].as_str()) {
                        Some(p) => p,
                        None => len - 1,
                    }
                } else {
                    len - 1
                },
                None => len - 1,
            },
        };
        assert(start == hotkey_start(s, c, owner_view));
        let mut idx = start;
        let mut taken: usize = 0;
        proof { vstd::arithmetic::div_mod::lemma_small_mod(start as nat, len as nat); }
        while taken < len
            invariant
                taken <= len,
                s == old(self)@,
                self@ == s,
                len == c.len(),
                c == string_views(candidates@),
                start < len,
                idx == step_index(start as int, taken as int, len as int, true),
                scan(s, logged, c, start as int, true, 1) == scan(s, logged, c, start as int, true, taken + 1),
                logged == logged_view(logged_out_map),
                c.to_multiset() == string_views(group@).to_multiset(),
                sorted_by_rank(default_order(s), c),
                focus_owner(s, owner_view),
                start == hotkey_start(s, c, owner_view),
            decreases len - taken,
        {
            proof { lemma_next_step(start as int, taken as int, len as int, true); }
            idx = if idx + 1 == len { 0 } else { idx + 1 };
            taken = taken + 1;
            assert(candidates@[idx as int]@ == c[idx as int]);
            if !self.is_skipped(candidates[idx].as_str()) {
                if let Some((w, _)) = self.activate_character(candidates[idx].as_str(), logged_out_map) {
                    assert(scan(s, logged, c, start as int, true, taken as int) == Some(taken as int));
                    return Some((w, candidates[idx].clone()));
                }
            }
        }
        None
    }
}

} // verus!
