//! Thumbnail edge snapping: when a dragged thumbnail comes within a
//! threshold of another one, its edges snap to the other's edges
//! (edge-to-edge) or align with them.

use vstd::prelude::*;
use crate::domain::Position;

verus! {

/// An axis-aligned rectangle on screen.
#[derive(Debug, Clone, Copy, PartialEq, Eq, Structural)]
pub struct Rect {
    pub x: i16,
    pub y: i16,
    pub width: u16,
    pub height: u16,
}

/// `v` clamped to the i16 range.
pub open spec fn clamp_i16(v: int) -> i16 {
    if v < i16::MIN { i16::MIN } else if v > i16::MAX { i16::MAX } else { v as i16 }
}

/// A u16 reinterpreted as i16 (two's complement), as `w as i16` does.
pub open spec fn u16_as_i16(w: u16) -> int {
    if w <= 32767 { w as int } else { w as int - 65536 }
}

pub open spec fn spec_right(r: Rect) -> i16 {
    clamp_i16(r.x + u16_as_i16(r.width))
}

pub open spec fn spec_bottom(r: Rect) -> i16 {
    clamp_i16(r.y + u16_as_i16(r.height))
}

fn cast_u16_i16(w: u16) -> (r: i16)
    ensures
        r as int == u16_as_i16(w),
{
    if w <= 32767 { w as i16 } else { ((w as i32) - 65536) as i16 }
}

fn saturating_add_i16(a: i16, b: i16) -> (r: i16)
    ensures
        r == clamp_i16(a + b),
{
    let s = (a as i32) + (b as i32);
    if s < -32768 { -32768 } else if s > 32767 { 32767 } else { s as i16 }
}

impl Rect {
    pub fn left(&self) -> (r: i16)
        ensures
            r == self.x,
    {
        self.x
    }

    /// Right edge: `x + width`, saturating at the i16 bounds (the width is
    /// taken as i16).
    pub fn right(&self) -> (r: i16)
        ensures
            r == spec_right(*self),
    {
        saturating_add_i16(self.x, cast_u16_i16(self.width))
    }

    pub fn top(&self) -> (r: i16)
        ensures
            r == self.y,
    {
        self.y
    }

    /// Bottom edge: `y + height`, saturating at the i16 bounds.
    pub fn bottom(&self) -> (r: i16)
        ensures
            r == spec_bottom(*self),
    {
        saturating_add_i16(self.y, cast_u16_i16(self.height))
    }
}

/// A possible snap along one axis: move by `offset`, `distance` pixels away.
#[derive(Debug, Clone, Copy, PartialEq, Eq, Structural)]
pub struct SnapCandidate {
    pub offset: i16,
    pub distance: i16,
}

pub open spec fn abs(v: int) -> int {
    if v < 0 { -v } else { v }
}

/// One snap check: `edge` against `target` keeps the candidate when it is
/// within the threshold and strictly closer than the current best.
pub open spec fn snap_step(best: Option<SnapCandidate>, edge: i16, target: i16, threshold: int) -> Option<SnapCandidate> {
    let distance = abs(edge - target);
    if distance <= threshold && (best is None || distance < best->0.distance) {
        Some(SnapCandidate { offset: (target - edge) as i16, distance: distance as i16 })
    } else {
        best
    }
}

/// The best candidate among (edge, target) pairs checked in order.
pub open spec fn best_snap(pairs: Seq<(i16, i16)>, threshold: int) -> Option<SnapCandidate>
    decreases pairs.len(),
{
    if pairs.len() == 0 {
        None
    } else {
        snap_step(best_snap(pairs.drop_last(), threshold), pairs.last().0, pairs.last().1, threshold)
    }
}

/// The two rectangles overlap or are within the threshold vertically,
/// which allows aligning their left/right edges.
pub open spec fn near_vertically(d: Rect, o: Rect, threshold: int) -> bool {
    ||| (spec_bottom(d) >= o.y && d.y <= spec_bottom(o))
    ||| abs(d.y - spec_bottom(o)) <= threshold
    ||| abs(spec_bottom(d) - o.y) <= threshold
}

/// The two rectangles overlap or are within the threshold horizontally,
/// which allows aligning their top/bottom edges.
pub open spec fn near_horizontally(d: Rect, o: Rect, threshold: int) -> bool {
    ||| (spec_right(d) >= o.x && d.x <= spec_right(o))
    ||| abs(d.x - spec_right(o)) <= threshold
    ||| abs(spec_right(d) - o.x) <= threshold
}

/// The horizontal checks made against one other rectangle, in order:
/// edge-to-edge always, alignment when near vertically.
pub open spec fn x_pairs(d: Rect, o: Rect, threshold: int) -> Seq<(i16, i16)> {
    seq![(d.x, spec_right(o)), (spec_right(d), o.x)] + if near_vertically(d, o, threshold) {
        seq![(d.x, o.x), (spec_right(d), spec_right(o))]
    } else {
        Seq::empty()
    }
}

/// The vertical checks made against one other rectangle, in order.
pub open spec fn y_pairs(d: Rect, o: Rect, threshold: int) -> Seq<(i16, i16)> {
    seq![(d.y, spec_bottom(o)), (spec_bottom(d), o.y)] + if near_horizontally(d, o, threshold) {
        seq![(d.y, o.y), (spec_bottom(d), spec_bottom(o))]
    } else {
        Seq::empty()
    }
}

/// All horizontal checks against `others`, in order.
pub open spec fn all_x_pairs(d: Rect, others: Seq<Rect>, threshold: int) -> Seq<(i16, i16)>
    decreases others.len(),
{
    if others.len() == 0 {
        Seq::empty()
    } else {
        all_x_pairs(d, others.drop_last(), threshold) + x_pairs(d, others.last(), threshold)
    }
}

/// All vertical checks against `others`, in order.
pub open spec fn all_y_pairs(d: Rect, others: Seq<Rect>, threshold: int) -> Seq<(i16, i16)>
    decreases others.len(),
{
    if others.len() == 0 {
        Seq::empty()
    } else {
        all_y_pairs(d, others.drop_last(), threshold) + y_pairs(d, others.last(), threshold)
    }
}

/// The difference of two i16 values, and its negation, fit in i16.
pub open spec fn diff_fits(a: i16, b: i16) -> bool {
    -32767 <= a - b <= 32767
}

/// Every pair of `pairs` has a difference that fits in i16.
pub open spec fn pairs_fit(pairs: Seq<(i16, i16)>) -> bool {
    forall|i: int| 0 <= i < pairs.len() ==> diff_fits(#[trigger] pairs[i].0, pairs[i].1)
}

/// The snapping threshold as the i16 the checks compare against.
pub open spec fn spec_threshold(threshold: u16) -> int {
    u16_as_i16(threshold)
}

/// The inputs on which the computation stays within i16 arithmetic: every
/// edge difference that is computed fits, and so does the snapped position.
pub open spec fn snap_in_range(d: Rect, others: Seq<Rect>, threshold: u16) -> bool {
    let t = spec_threshold(threshold);
    threshold == 0 || {
        &&& pairs_fit(all_x_pairs(d, others, t))
        &&& pairs_fit(all_y_pairs(d, others, t))
        &&& best_snap(all_x_pairs(d, others, t), t) matches Some(c) ==> i16::MIN <= d.x + c.offset <= i16::MAX
        &&& best_snap(all_y_pairs(d, others, t), t) matches Some(c) ==> i16::MIN <= d.y + c.offset <= i16::MAX
    }
}

/// The position a drag snaps to, if any.
pub open spec fn spec_snap_position(d: Rect, others: Seq<Rect>, threshold: u16) -> Option<Position> {
    let t = spec_threshold(threshold);
    if threshold == 0 {
        None
    } else {
        match (best_snap(all_x_pairs(d, others, t), t), best_snap(all_y_pairs(d, others, t), t)) {
            (Some(cx), Some(cy)) => Some(Position { x: (d.x + cx.offset) as i16, y: (d.y + cy.offset) as i16 }),
            (Some(cx), None) => Some(Position { x: (d.x + cx.offset) as i16, y: d.y }),
            (None, Some(cy)) => Some(Position { x: d.x, y: (d.y + cy.offset) as i16 }),
            (None, None) => None,
        }
    }
}

fn abs_diff(a: i16, b: i16) -> (r: i16)
    requires
        diff_fits(a, b),
    ensures
        r == abs(a - b),
{
    let d = a - b;
    if d < 0 { -d } else { d }
}

/// One snap check: keep `edge` against `target` if it is within the
/// threshold and closer than the current best.
pub fn check_snap(best: &mut Option<SnapCandidate>, edge: i16, target: i16, threshold: i16)
    requires
        diff_fits(edge, target),
    ensures
        *final(best) == snap_step(*old(best), edge, target, threshold as int),
{
    let distance = abs_diff(edge, target);
    if distance <= threshold {
        let candidate = SnapCandidate { offset: target - edge, distance };
        let keep = match best {
            None => true,
            Some(b) => candidate.distance < b.distance,
        };
        if keep {
            *best = Some(candidate);
        }
    }
}

proof fn lemma_best_snap_append(a: Seq<(i16, i16)>, b: Seq<(i16, i16)>, t: int, best_a: Option<SnapCandidate>)
    requires
        best_a == best_snap(a, t),
    ensures
        best_snap(a + b, t) == fold_from(best_a, b, t),
    decreases b.len(),
{
    if b.len() == 0 {
        assert(a + b =~= a);
    } else {
        lemma_best_snap_append(a, b.drop_last(), t, best_a);
        assert((a + b).drop_last() =~= a + b.drop_last());
        assert((a + b).last() == b.last());
    }
}

/// Continue the fold of `best_snap` from `start` over `pairs`.
pub open spec fn fold_from(start: Option<SnapCandidate>, pairs: Seq<(i16, i16)>, threshold: int) -> Option<SnapCandidate>
    decreases pairs.len(),
{
    if pairs.len() == 0 {
        start
    } else {
        snap_step(fold_from(start, pairs.drop_last(), threshold), pairs.last().0, pairs.last().1, threshold)
    }
}

proof fn lemma_pairs_fit_split(a: Seq<(i16, i16)>, b: Seq<(i16, i16)>)
    requires
        pairs_fit(a + b),
    ensures
        pairs_fit(a),
        pairs_fit(b),
{
    assert forall|i: int| 0 <= i < a.len() implies diff_fits(#[trigger] a[i].0, a[i].1) by {
        assert((a + b)[i] == a[i]);
    };
    assert forall|i: int| 0 <= i < b.len() implies diff_fits(#[trigger] b[i].0, b[i].1) by {
        assert((a + b)[a.len() + i] == b[i]);
    };
}

proof fn lemma_prefix_fit(d: Rect, others: Seq<Rect>, k: int, t: int)
    requires
        0 <= k <= others.len(),
        pairs_fit(all_x_pairs(d, others, t)),
        pairs_fit(all_y_pairs(d, others, t)),
    ensures
        pairs_fit(all_x_pairs(d, others.subrange(0, k), t)),
        pairs_fit(all_y_pairs(d, others.subrange(0, k), t)),
    decreases others.len() - k,
{
    if k == others.len() {
        assert(others.subrange(0, k) =~= others);
    } else {
        lemma_prefix_fit(d, others, k + 1, t);
        let pre = others.subrange(0, k + 1);
        assert(pre.drop_last() =~= others.subrange(0, k));
        lemma_pairs_fit_split(all_x_pairs(d, pre.drop_last(), t), x_pairs(d, pre.last(), t));
        lemma_pairs_fit_split(all_y_pairs(d, pre.drop_last(), t), y_pairs(d, pre.last(), t));
    }
}

/// Find where a dragged thumbnail snaps to, given the other thumbnails;
/// `None` when no edge is within the threshold (or the threshold is 0,
/// which disables snapping).
pub fn find_snap_position(dragged: Rect, others: &[Rect], threshold: u16) -> (r: Option<Position>)
    requires
        snap_in_range(dragged, others@, threshold),
    ensures
        r == spec_snap_position(dragged, others@, threshold),
{
    if threshold == 0 {
        return None;
    }
    let t = cast_u16_i16(threshold);
    let ghost ti = t as int;
    let mut best_x: Option<SnapCandidate> = None;
    let mut best_y: Option<SnapCandidate> = None;
    let d_left = dragged.left();
    let d_right = dragged.right();
    let d_top = dragged.top();
    let d_bottom = dragged.bottom();
    let mut i: usize = 0;
    while i < others.len()
        invariant
            i <= others@.len(),
            ti == spec_threshold(threshold),
            t as int == ti,
            threshold != 0,
            d_left == dragged.x,
            d_top == dragged.y,
            d_right == spec_right(dragged),
            d_bottom == spec_bottom(dragged),
            pairs_fit(all_x_pairs(dragged, others@, ti)),
            pairs_fit(all_y_pairs(dragged, others@, ti)),
            best_x == best_snap(all_x_pairs(dragged, others@.subrange(0, i as int), ti), ti),
            best_y == best_snap(all_y_pairs(dragged, others@.subrange(0, i as int), ti), ti),
        decreases others@.len() - i,
    {
        let other = others[i];
        let o_left = other.left();
        let o_right = other.right();
        let o_top = other.top();
        let o_bottom = other.bottom();
        let ghost pre = others@.subrange(0, i as int);
        let ghost next = others@.subrange(0, i + 1);
        proof {
            assert(next.drop_last() =~= pre);
            assert(next.last() == other);
            lemma_prefix_fit(dragged, others@, i + 1, ti);
            lemma_pairs_fit_split(all_x_pairs(dragged, pre, ti), x_pairs(dragged, other, ti));
            lemma_pairs_fit_split(all_y_pairs(dragged, pre, ti), y_pairs(dragged, other, ti));
            let xp = x_pairs(dragged, other, ti);
            let yp = y_pairs(dragged, other, ti);
            assert(xp[0] == (d_left, o_right));
            assert(xp[1] == (d_right, o_left));
            assert(yp[0] == (d_top, o_bottom));
            assert(yp[1] == (d_bottom, o_top));
            assert(diff_fits(xp[0].0, xp[0].1));
            assert(diff_fits(xp[1].0, xp[1].1));
            assert(diff_fits(yp[0].0, yp[0].1));
            assert(diff_fits(yp[1].0, yp[1].1));
            if near_vertically(dragged, other, ti) {
                assert(xp[2] == (d_left, o_left));
                assert(xp[3] == (d_right, o_right));
                assert(diff_fits(xp[2].0, xp[2].1));
                assert(diff_fits(xp[3].0, xp[3].1));
            }
            if near_horizontally(dragged, other, ti) {
                assert(yp[2] == (d_top, o_top));
                assert(yp[3] == (d_bottom, o_bottom));
                assert(diff_fits(yp[2].0, yp[2].1));
                assert(diff_fits(yp[3].0, yp[3].1));
            }
        }
        let ghost bx0 = best_x;
        let ghost by0 = best_y;
        check_snap(&mut best_x, d_left, o_right, t);
        check_snap(&mut best_x, d_right, o_left, t);

        let vertical_overlap = d_bottom >= o_top && d_top <= o_bottom;
        let vertical_proximity = abs_diff(d_top, o_bottom) <= t || abs_diff(d_bottom, o_top) <= t;
        let near_v = vertical_overlap || vertical_proximity;
        assert(near_v == near_vertically(dragged, other, ti));
        if near_v {
            check_snap(&mut best_x, d_left, o_left, t);
            check_snap(&mut best_x, d_right, o_right, t);
        }

        check_snap(&mut best_y, d_top, o_bottom, t);
        check_snap(&mut best_y, d_bottom, o_top, t);

        let horizontal_overlap = d_right >= o_left && d_left <= o_right;
        let horizontal_proximity = abs_diff(d_left, o_right) <= t || abs_diff(d_right, o_left) <= t;
        let near_h = horizontal_overlap || horizontal_proximity;
        assert(near_h == near_horizontally(dragged, other, ti));
        if near_h {
            check_snap(&mut best_y, d_top, o_top, t);
            check_snap(&mut best_y, d_bottom, o_bottom, t);
        }
        proof {
            let xp = x_pairs(dragged, other, ti);
            let yp = y_pairs(dragged, other, ti);
            lemma_best_snap_append(all_x_pairs(dragged, pre, ti), xp, ti, bx0);
            lemma_best_snap_append(all_y_pairs(dragged, pre, ti), yp, ti, by0);
            lemma_fold_unroll(bx0, xp, ti);
            lemma_fold_unroll(by0, yp, ti);
            assert(all_x_pairs(dragged, next, ti) == all_x_pairs(dragged, pre, ti) + xp);
            assert(all_y_pairs(dragged, next, ti) == all_y_pairs(dragged, pre, ti) + yp);
        }
        i = i + 1;
    }
    proof {
        assert(others@.subrange(0, others@.len() as int) =~= others@);
    }
    match (best_x, best_y) {
        (Some(cx), Some(cy)) => Some(Position::new(dragged.x + cx.offset, dragged.y + cy.offset)),
        (Some(cx), None) => Some(Position::new(dragged.x + cx.offset, dragged.y)),
        (None, Some(cy)) => Some(Position::new(dragged.x, dragged.y + cy.offset)),
        (None, None) => None,
    }
}

/// Folding over two or four pairs unrolls into that many steps.
proof fn lemma_fold_unroll(start: Option<SnapCandidate>, p: Seq<(i16, i16)>, t: int)
    requires
        p.len() == 2 || p.len() == 4,
    ensures
        p.len() == 2 ==> fold_from(start, p, t) == snap_step(snap_step(start, p[0].0, p[0].1, t), p[1].0, p[1].1, t),
        p.len() == 4 ==> fold_from(start, p, t) == snap_step(snap_step(snap_step(snap_step(start, p[0].0, p[0].1, t), p[1].0, p[1].1, t), p[2].0, p[2].1, t), p[3].0, p[3].1, t),
{
    reveal_with_fuel(fold_from, 5);
    if p.len() == 2 {
        assert(p.drop_last().drop_last().len() == 0);
    } else {
        assert(p.drop_last().drop_last().drop_last().drop_last().len() == 0);
        assert(p.drop_last().drop_last().drop_last()[0] == p[0]);
        assert(p.drop_last().drop_last()[1] == p[1]);
        assert(p.drop_last()[2] == p[2]);
    }
}

/// The snap chosen along an axis is a closest one: it is within the
/// threshold, no checked edge within the threshold is closer, and no
/// earlier one is as close. When nothing is chosen, no checked edge is
/// within the threshold.
pub proof fn lemma_best_snap_is_closest(pairs: Seq<(i16, i16)>, threshold: int)
    requires
        pairs_fit(pairs),
    ensures
        best_snap(pairs, threshold) is None <==> forall|j: int| 0 <= j < pairs.len() ==> abs(#[trigger] pairs[j].0 - pairs[j].1) > threshold,
        best_snap(pairs, threshold) matches Some(c) ==> exists|i: int| {
            &&& 0 <= i < pairs.len()
            &&& c.offset == pairs[i].1 - pairs[i].0
            &&& c.distance == abs(pairs[i].0 - pairs[i].1)
            &&& c.distance <= threshold
            &&& (forall|j: int| 0 <= j < pairs.len() && abs(#[trigger] pairs[j].0 - pairs[j].1) <= threshold ==> c.distance <= abs(pairs[j].0 - pairs[j].1))
            &&& (forall|j: int| 0 <= j < i ==> c.distance < abs(#[trigger] pairs[j].0 - pairs[j].1))
        },
    decreases pairs.len(),
{
    if pairs.len() == 0 {
    } else {
        let pre = pairs.drop_last();
        assert(pairs_fit(pre)) by {
            assert forall|i: int| 0 <= i < pre.len() implies diff_fits(#[trigger] pre[i].0, pre[i].1) by {
                assert(pre[i] == pairs[i]);
            };
        };
        lemma_best_snap_is_closest(pre, threshold);
        let n = pairs.len() - 1;
        let last = pairs[n];
        assert(pairs.last() == last);
        let b = best_snap(pre, threshold);
        let dist = abs(last.0 - last.1);
        assert forall|j: int| 0 <= j < n implies #[trigger] pairs[j] == pre[j] by {};
        if dist <= threshold && (b is None || dist < b->0.distance) {
            assert(diff_fits(pairs[n].0, pairs[n].1));
            let c = best_snap(pairs, threshold)->0;
            assert(c.offset == last.1 - last.0);
            assert(c.distance == dist);
            assert forall|j: int| 0 <= j < pairs.len() && abs(#[trigger] pairs[j].0 - pairs[j].1) <= threshold
                implies c.distance <= abs(pairs[j].0 - pairs[j].1) by {
                if j < n {
                    assert(pairs[j] == pre[j]);
                    if b is None {
                    } else {
                        let i0 = choose|i: int| {
                            &&& 0 <= i < pre.len()
                            &&& b->0.offset == pre[i].1 - pre[i].0
                            &&& b->0.distance == abs(pre[i].0 - pre[i].1)
                            &&& b->0.distance <= threshold
                            &&& (forall|j: int| 0 <= j < pre.len() && abs(#[trigger] pre[j].0 - pre[j].1) <= threshold ==> b->0.distance <= abs(pre[j].0 - pre[j].1))
                            &&& (forall|j: int| 0 <= j < i ==> b->0.distance < abs(#[trigger] pre[j].0 - pre[j].1))
                        };
                        assert(abs(pre[j].0 - pre[j].1) <= threshold);
                    }
                }
            };
            assert forall|j: int| 0 <= j < n implies c.distance < abs(#[trigger] pairs[j].0 - pairs[j].1) by {
                assert(pairs[j] == pre[j]);
                if abs(pre[j].0 - pre[j].1) <= threshold {
                    let i0 = choose|i: int| {
                        &&& 0 <= i < pre.len()
                        &&& b->0.offset == pre[i].1 - pre[i].0
                        &&& b->0.distance == abs(pre[i].0 - pre[i].1)
                        &&& b->0.distance <= threshold
                        &&& (forall|j: int| 0 <= j < pre.len() && abs(#[trigger] pre[j].0 - pre[j].1) <= threshold ==> b->0.distance <= abs(pre[j].0 - pre[j].1))
                        &&& (forall|j: int| 0 <= j < i ==> b->0.distance < abs(#[trigger] pre[j].0 - pre[j].1))
                    };
                }
            };
        } else {
            assert(best_snap(pairs, threshold) == b);
            if b is Some {
                let i0 = choose|i: int| {
                    &&& 0 <= i < pre.len()
                    &&& b->0.offset == pre[i].1 - pre[i].0
                    &&& b->0.distance == abs(pre[i].0 - pre[i].1)
                    &&& b->0.distance <= threshold
                    &&& (forall|j: int| 0 <= j < pre.len() && abs(#[trigger] pre[j].0 - pre[j].1) <= threshold ==> b->0.distance <= abs(pre[j].0 - pre[j].1))
                    &&& (forall|j: int| 0 <= j < i ==> b->0.distance < abs(#[trigger] pre[j].0 - pre[j].1))
                };
                assert(pairs[i0] == pre[i0]);
                assert forall|j: int| 0 <= j < i0 implies b->0.distance < abs(#[trigger] pairs[j].0 - pairs[j].1) by {
                    assert(pairs[j] == pre[j]);
                };
                assert forall|j: int| 0 <= j < pairs.len() && abs(#[trigger] pairs[j].0 - pairs[j].1) <= threshold
                    implies b->0.distance <= abs(pairs[j].0 - pairs[j].1) by {
                    if j < n {
                        assert(pairs[j] == pre[j]);
                    }
                };
            } else {
                assert forall|j: int| 0 <= j < pairs.len() implies abs(#[trigger] pairs[j].0 - pairs[j].1) > threshold by {
                    if j < n {
                        assert(pairs[j] == pre[j]);
                    }
                };
            }
        }
    }
}

/// Where the checks against `others[k]` stand among all horizontal checks.
proof fn lemma_x_pairs_of(d: Rect, others: Seq<Rect>, t: int, k: int) -> (base: int)
    requires
        0 <= k < others.len(),
    ensures
        0 <= base,
        base + x_pairs(d, others[k], t).len() <= all_x_pairs(d, others, t).len(),
        forall|q: int| 0 <= q < x_pairs(d, others[k], t).len()
            ==> #[trigger] all_x_pairs(d, others, t)[base + q] == x_pairs(d, others[k], t)[q],
    decreases others.len(),
{
    let pre = others.drop_last();
    let xs = x_pairs(d, others.last(), t);
    assert(all_x_pairs(d, others, t) == all_x_pairs(d, pre, t) + xs);
    if k == others.len() - 1 {
        all_x_pairs(d, pre, t).len() as int
    } else {
        let base = lemma_x_pairs_of(d, pre, t, k);
        assert(pre[k] == others[k]);
        assert forall|q: int| 0 <= q < x_pairs(d, others[k], t).len()
            implies #[trigger] all_x_pairs(d, others, t)[base + q] == x_pairs(d, others[k], t)[q] by {
            assert(all_x_pairs(d, pre, t)[base + q] == x_pairs(d, pre[k], t)[q]);
        };
        base
    }
}

/// Every horizontal check puts a left or right edge of the dragged
/// rectangle against a left or right edge of one of the others.
proof fn lemma_x_pairs_are_edges(d: Rect, others: Seq<Rect>, t: int, i: int)
    requires
        0 <= i < all_x_pairs(d, others, t).len(),
    ensures
        all_x_pairs(d, others, t)[i].0 == d.x || all_x_pairs(d, others, t)[i].0 == spec_right(d),
        exists|m: int| 0 <= m < others.len() && (all_x_pairs(d, others, t)[i].1 == (#[trigger] others[m]).x
            || all_x_pairs(d, others, t)[i].1 == spec_right(others[m])),
    decreases others.len(),
{
    let pre = others.drop_last();
    let xs = x_pairs(d, others.last(), t);
    assert(all_x_pairs(d, others, t) == all_x_pairs(d, pre, t) + xs);
    let n = all_x_pairs(d, pre, t).len() as int;
    if i < n {
        lemma_x_pairs_are_edges(d, pre, t, i);
        let m = choose|m: int| 0 <= m < pre.len() && (all_x_pairs(d, pre, t)[i].1 == (#[trigger] pre[m]).x
            || all_x_pairs(d, pre, t)[i].1 == spec_right(pre[m]));
        assert(pre[m] == others[m]);
    } else {
        assert(all_x_pairs(d, others, t)[i] == xs[i - n]);
        assert(others.last() == others[others.len() - 1]);
    }
}

/// Snapping lines a dragged thumbnail's left edge up with that of a
/// thumbnail above or below it: when the dragged rectangle's top is within
/// the threshold of another's bottom (or its bottom within the threshold
/// of the other's top), or the two overlap vertically, and the left edges
/// are within the threshold, the drag snaps horizontally, by no more than
/// the left edges are apart, onto an edge of one of the thumbnails (a
/// left or right edge of the dragged one lands on a left or right edge of
/// another).
pub proof fn lemma_left_edges_align_when_near_vertically(d: Rect, others: Seq<Rect>, threshold: u16, k: int)
    requires
        0 < threshold <= 32767,
        snap_in_range(d, others, threshold),
        0 <= k < others.len(),
        ({
            let o = others[k];
            ||| abs(d.y - spec_bottom(o)) <= threshold
            ||| abs(spec_bottom(d) - o.y) <= threshold
            ||| (spec_bottom(d) >= o.y && d.y <= spec_bottom(o))
        }),
        abs(d.x - others[k].x) <= threshold,
    ensures
        spec_snap_position(d, others, threshold) matches Some(p) && {
            &&& abs(p.x - d.x) <= abs(d.x - others[k].x)
            &&& exists|m: int| 0 <= m < others.len() && {
                ||| p.x == (#[trigger] others[m]).x
                ||| p.x == spec_right(others[m])
                ||| spec_right(d) + (p.x - d.x) == others[m].x
                ||| spec_right(d) + (p.x - d.x) == spec_right(others[m])
            }
        },
{
    let t = spec_threshold(threshold);
    assert(t == threshold as int);
    let pairs = all_x_pairs(d, others, t);
    let o = others[k];
    assert(near_vertically(d, o, t));
    let base = lemma_x_pairs_of(d, others, t, k);
    assert(x_pairs(d, o, t)[2] == (d.x, o.x));
    assert(pairs[base + 2] == (d.x, o.x));
    lemma_best_snap_is_closest(pairs, t);
    assert(best_snap(pairs, t) is Some) by {
        assert(abs(pairs[base + 2].0 - pairs[base + 2].1) <= t);
    };
    let c = best_snap(pairs, t)->0;
    let i = choose|i: int| {
        &&& 0 <= i < pairs.len()
        &&& c.offset == pairs[i].1 - pairs[i].0
        &&& c.distance == abs(pairs[i].0 - pairs[i].1)
        &&& c.distance <= t
        &&& (forall|j: int| 0 <= j < pairs.len() && abs(#[trigger] pairs[j].0 - pairs[j].1) <= t ==> c.distance <= abs(pairs[j].0 - pairs[j].1))
        &&& (forall|j: int| 0 <= j < i ==> c.distance < abs(#[trigger] pairs[j].0 - pairs[j].1))
    };
    assert(c.distance <= abs(pairs[base + 2].0 - pairs[base + 2].1));
    lemma_x_pairs_are_edges(d, others, t, i);
    let p = spec_snap_position(d, others, threshold)->0;
    assert(p.x == d.x + c.offset);
    let m = choose|m: int| 0 <= m < others.len() && (pairs[i].1 == (#[trigger] others[m]).x
        || pairs[i].1 == spec_right(others[m]));
    assert(0 <= m < others.len() && {
        ||| p.x == others[m].x
        ||| p.x == spec_right(others[m])
        ||| spec_right(d) + (p.x - d.x) == others[m].x
        ||| spec_right(d) + (p.x - d.x) == spec_right(others[m])
    });
}

} // verus!
