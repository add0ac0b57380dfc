//! The path model: an ordered, distance-annotated loop of waypoints, and
//! the distance-to-placement interpolation over it.
//!
//! A model is immutable once built: it is constructed wholesale by
//! [`crate::extract::build`] and only read afterwards, so any number of
//! followers may query it concurrently.

use vstd::prelude::*;
use crate::fixed::{MAX_WAYPOINTS, SEGMENT_LIMIT};
use crate::placement::{Placement, lerp_placement, lerp_placement_spec};
use crate::vec3::{Vec3Fix, dist_spec, lemma_dist_bound, lemma_dist_nonneg};

verus! {

/// One authored point on the path: its placement in the world and its
/// cumulative distance from the path's start.  The first waypoint's
/// distance is zero, and zero also serves as the implicit end-of-loop
/// sentinel at the wrap point.
#[derive(Clone, Copy, Debug, PartialEq, Eq, Structural)]
pub struct Waypoint {
    pub placement: Placement,
    pub distance_along_path: u64,
}

/// The summed length of the first `i` forward segments of a position loop.
pub open spec fn prefix_length(ps: Seq<Vec3Fix>, i: int) -> int
    decreases i,
{
    if i <= 0 {
        0
    } else {
        prefix_length(ps, i - 1) + dist_spec(ps[i - 1], ps[i])
    }
}

/// The length of the whole loop: every forward segment plus the closing
/// segment from the last position back to the first.
pub open spec fn loop_length(ps: Seq<Vec3Fix>) -> int {
    prefix_length(ps, ps.len() - 1) + dist_spec(ps[ps.len() - 1], ps[0])
}

/// The positions of a waypoint sequence, in order.
pub open spec fn positions_of(wps: Seq<Waypoint>) -> Seq<Vec3Fix> {
    wps.map(|i: int, w: Waypoint| w.placement.position)
}

/// Consecutive prefix sums differ by exactly one segment distance, and
/// they never decrease.
pub proof fn lemma_prefix_step(ps: Seq<Vec3Fix>, i: int)
    requires
        0 <= i,
    ensures
        prefix_length(ps, i + 1) == prefix_length(ps, i) + dist_spec(ps[i], ps[i + 1]),
        prefix_length(ps, i) <= prefix_length(ps, i + 1),
{
    lemma_dist_nonneg(ps[i], ps[i + 1]);
}

/// Prefix sums are monotone in the number of segments summed.
pub proof fn lemma_prefix_monotone(ps: Seq<Vec3Fix>, i: int, j: int)
    requires
        0 <= i <= j,
    ensures
        prefix_length(ps, i) <= prefix_length(ps, j),
    decreases j - i,
{
    if i < j {
        lemma_prefix_monotone(ps, i, j - 1);
        lemma_prefix_step(ps, j - 1);
    }
}

/// A prefix sum of `i` coordinate-bounded segments is at most `i` times
/// the segment bound.
pub proof fn lemma_prefix_upper(ps: Seq<Vec3Fix>, i: int)
    requires
        0 <= i < ps.len(),
        forall|j: int| 0 <= j < ps.len() ==> (#[trigger] ps[j]).in_bounds(
            crate::fixed::COORD_LIMIT as int),
    ensures
        0 <= prefix_length(ps, i) <= i * (SEGMENT_LIMIT as int),
    decreases i,
{
    if i <= 0 {
    } else {
        lemma_prefix_upper(ps, i - 1);
        lemma_dist_bound(ps[i - 1], ps[i]);
        assert((i - 1) * (SEGMENT_LIMIT as int) + SEGMENT_LIMIT == i * (SEGMENT_LIMIT as int))
            by (nonlinear_arith);
    }
}

/// The total length of a well-formed model never exceeds the waypoint
/// cap times the segment bound, so a distance cursor can be advanced
/// without overflow.
pub proof fn lemma_total_length_bound(m: PathModel)
    requires
        m.wf(),
    ensures
        m.total_length <= 0x1000000000000,
{
    let wps = m.waypoints@;
    let ps = positions_of(wps);
    let n = ps.len() as int;
    assert forall|j: int| 0 <= j < ps.len() implies (#[trigger] ps[j]).in_bounds(
        crate::fixed::COORD_LIMIT as int,
    ) by {
        assert(wps[j].placement.in_world_bounds());
    }
    lemma_prefix_upper(ps, n - 1);
    lemma_dist_bound(ps[n - 1], ps[0]);
    assert(1048576 * (SEGMENT_LIMIT as int) == 0x1000000000000);
    assert((n - 1) * (SEGMENT_LIMIT as int) + SEGMENT_LIMIT == n * (SEGMENT_LIMIT as int))
        by (nonlinear_arith);
    assert(n * (SEGMENT_LIMIT as int) <= 1048576 * (SEGMENT_LIMIT as int)) by (nonlinear_arith)
        requires
            n <= 1048576,
            SEGMENT_LIMIT as int >= 0,
    ;
}

/// The arc-length-parametrized path: the waypoint loop and its total
/// length.  Built once per level and treated as read-only afterwards.
pub struct PathModel {
    pub waypoints: Vec<Waypoint>,
    pub total_length: u64,
}

impl PathModel {
    /// Well-formedness: at least one waypoint, every placement within the
    /// world bounds, every stored distance the prefix sum of the segment
    /// distances before it (so the first is zero), and the stored total
    /// the length of the whole loop, closing segment included.
    pub open spec fn wf(self) -> bool {
        let wps = self.waypoints@;
        &&& 1 <= wps.len() <= MAX_WAYPOINTS
        &&& forall|i: int| 0 <= i < wps.len() ==> (#[trigger] wps[i]).placement.in_world_bounds()
        &&& forall|i: int| 0 <= i < wps.len() ==> (#[trigger] wps[i]).distance_along_path
            == prefix_length(positions_of(wps), i)
        &&& self.total_length == loop_length(positions_of(wps))
    }

    /// The number of waypoints on the path.
    pub fn waypoint_count(&self) -> (n: usize)
        ensures
            n == self.waypoints@.len(),
    {
        self.waypoints.len()
    }

    /// The placement of the first waypoint: the payload of the path-ready
    /// signal, used to place a navigating entity when it spawns.
    pub fn first_placement(&self) -> (p: Placement)
        requires
            self.wf(),
        ensures
            p == self.waypoints@[0].placement,
    {
        self.waypoints[0].placement
    }
}

/// The matching rule that locates the segment holding distance `d`: the
/// previous waypoint must lie at or before `d`, and either `d` lies at or
/// before the next waypoint, or the next waypoint is the wrap point,
/// recognized by its sentinel distance of zero.
pub open spec fn seg_match(wps: Seq<Waypoint>, d: int, i: int) -> bool {
    let next = wps[(i + 1) % (wps.len() as int)];
    &&& wps[i].distance_along_path <= d
    &&& (d <= next.distance_along_path || next.distance_along_path == 0)
}

/// The first index at or after `i` whose segment matches `d`, or the
/// sequence length when none does.
pub open spec fn first_match_from(wps: Seq<Waypoint>, d: int, i: int) -> int
    decreases wps.len() - i,
{
    if i >= wps.len() {
        wps.len() as int
    } else if seg_match(wps, d, i) {
        i
    } else {
        first_match_from(wps, d, i + 1)
    }
}

/// The distance value attributed to the end of segment `i`: the next
/// waypoint's stored distance, except across the wrap segment, where the
/// sentinel zero stands for the total path length.
pub open spec fn seg_end_distance(m: PathModel, i: int) -> int {
    let wps = m.waypoints@;
    let len = wps.len() as int;
    if (i + 1) % len == 0 {
        m.total_length as int
    } else {
        wps[(i + 1) % len].distance_along_path as int
    }
}

/// The placement at distance `d_raw` along the path: wrap the distance
/// into `[0, total_length)`, find the first matching segment, and
/// interpolate across it; a zero-width segment yields its start, and a
/// failed search (unreachable for well-formed models, but guarded) yields
/// the identity placement.
pub open spec fn transform_at_spec(m: PathModel, d_raw: int) -> Placement {
    let wps = m.waypoints@;
    let len = wps.len() as int;
    let total = m.total_length as int;
    let d = if total == 0 { 0 } else { d_raw % total };
    let i = first_match_from(wps, d, 0);
    if i >= len {
        Placement::identity_spec()
    } else {
        let prev = wps[i];
        let next = wps[(i + 1) % len];
        let hi = seg_end_distance(m, i);
        if hi <= prev.distance_along_path {
            prev.placement
        } else {
            lerp_placement_spec(
                prev.placement,
                next.placement,
                d - prev.distance_along_path,
                hi - prev.distance_along_path,
            )
        }
    }
}

impl PathModel {
    /// Interpolate the placement at distance `distance` along the path.
    ///
    /// The query is pure and read-only; the result is pinned exactly by
    /// [`transform_at_spec`], and a query at distance zero returns the
    /// first waypoint's stored placement unchanged.
    #[verifier::loop_isolation(false)]
    pub fn transform_at(&self, distance: u64) -> (p: Placement)
        requires
            self.wf(),
        ensures
            p == transform_at_spec(*self, distance as int),
            distance == 0 ==> p == self.waypoints@[0].placement,
    {
        let ghost wps = self.waypoints@;
        let len = self.waypoints.len();
        let total = self.total_length;
        let d: u64 = if total == 0 { 0 } else { distance % total };
        proof {
            if total != 0 {
                vstd::arithmetic::div_mod::lemma_mod_bound(distance as int, total as int);
                if distance == 0 {
                    vstd::arithmetic::div_mod::lemma_small_mod(0nat, total as nat);
                }
            }
        }
        let mut i: usize = 0;
        while i < len
            invariant
                i <= len,
                first_match_from(wps, d as int, 0) == first_match_from(wps, d as int, i as int),
            decreases len - i,
        {
            let prev = self.waypoints[i];
            let next_idx: usize = if i + 1 == len { 0 } else { i + 1 };
            proof {
                if i + 1 == len {
                    vstd::arithmetic::div_mod::lemma_mod_self_0(len as int);
                } else {
                    vstd::arithmetic::div_mod::lemma_small_mod((i + 1) as nat, len as nat);
                }
            }
            let next = self.waypoints[next_idx];
            if prev.distance_along_path <= d
                && (d <= next.distance_along_path || next.distance_along_path == 0) {
                assert(seg_match(wps, d as int, i as int));
                let hi: u64 = if next_idx == 0 { total } else { next.distance_along_path };
                assert(hi == seg_end_distance(*self, i as int));
                if hi <= prev.distance_along_path {
                    return prev.placement;
                }
                let den: u64 = hi - prev.distance_along_path;
                let num: u64 = d - prev.distance_along_path;
                proof {
                    let ps = positions_of(wps);
                    if next_idx == 0 {
                        assert(i + 1 == len);
                        assert(prev.distance_along_path == prefix_length(ps, len - 1));
                        lemma_dist_bound(ps[len - 1], ps[0]);
                        assert(total - prev.distance_along_path == dist_spec(ps[len - 1], ps[0]));
                    } else {
                        lemma_prefix_step(ps, i as int);
                        lemma_dist_bound(ps[i as int], ps[i + 1]);
                        assert(next.distance_along_path - prev.distance_along_path
                            == dist_spec(ps[i as int], ps[i + 1]));
                    }
                }
                let p = lerp_placement(&prev.placement, &next.placement, num, den);
                return p;
            }
            i = i + 1;
        }
        Placement::identity()
    }
}

proof fn lemma_first_match_le(wps: Seq<Waypoint>, d: int, i: int, j: int)
    requires
        0 <= i <= j < wps.len(),
        seg_match(wps, d, j),
    ensures
        first_match_from(wps, d, i) <= j,
    decreases j - i,
{
    if i < j && !seg_match(wps, d, i) {
        lemma_first_match_le(wps, d, i + 1, j);
    }
}

proof fn lemma_some_match(wps: Seq<Waypoint>, d: int, lo: int)
    requires
        0 <= lo < wps.len(),
        wps[0].distance_along_path == 0,
        wps[lo].distance_along_path <= d,
    ensures
        exists|j: int| lo <= j < wps.len() && #[trigger] seg_match(wps, d, j),
    decreases wps.len() - lo,
{
    let n = wps.len() as int;
    if lo == n - 1 {
        vstd::arithmetic::div_mod::lemma_mod_self_0(n);
        assert(seg_match(wps, d, n - 1));
    } else if d <= wps[lo + 1].distance_along_path {
        vstd::arithmetic::div_mod::lemma_small_mod((lo + 1) as nat, n as nat);
        assert(seg_match(wps, d, lo));
    } else {
        lemma_some_match(wps, d, lo + 1);
    }
}

/// For a well-formed model the matching rule always finds a segment for
/// any wrapped distance: the identity fallback in [`transform_at_spec`]
/// is a guard that a well-formed model never reaches.
pub proof fn lemma_match_always_found(m: PathModel, d: int)
    requires
        m.wf(),
        0 <= d,
        m.total_length != 0 ==> d < m.total_length,
    ensures
        first_match_from(m.waypoints@, d, 0) < m.waypoints@.len(),
{
    let wps = m.waypoints@;
    lemma_some_match(wps, d, 0);
    let j = choose|j: int| 0 <= j < wps.len() && #[trigger] seg_match(wps, d, j);
    lemma_first_match_le(wps, d, 0, j);
}

/// The total length of a well-formed model with two or more waypoints is
/// exactly the sum of the consecutive segment distances, closing segment
/// included; equivalently, each stored waypoint distance exceeds its
/// predecessor by exactly their segment's distance.
pub proof fn lemma_total_length_is_segment_sum(m: PathModel)
    requires
        m.wf(),
    ensures
        forall|i: int| 0 <= i < m.waypoints@.len() - 1 ==> m.waypoints@[i + 1].distance_along_path
            == (#[trigger] m.waypoints@[i].distance_along_path) + dist_spec(
                m.waypoints@[i].placement.position,
                m.waypoints@[i + 1].placement.position,
            ),
        m.total_length == m.waypoints@[m.waypoints@.len() - 1].distance_along_path + dist_spec(
            m.waypoints@[m.waypoints@.len() - 1].placement.position,
            m.waypoints@[0].placement.position,
        ),
{
    let wps = m.waypoints@;
    let ps = positions_of(wps);
    assert forall|i: int| 0 <= i < wps.len() - 1 implies wps[i + 1].distance_along_path
        == (#[trigger] wps[i].distance_along_path) + dist_spec(
        wps[i].placement.position,
        wps[i + 1].placement.position,
    ) by {
        lemma_prefix_step(ps, i);
    }
}

/// A degenerate model — zero total length, whether from a single
/// waypoint or from coincident ones — always yields its first stored
/// placement, whatever distance is queried, and never divides by zero.
pub proof fn lemma_degenerate_transform(m: PathModel, d: int)
    requires
        m.wf(),
        m.total_length == 0,
    ensures
        transform_at_spec(m, d) == m.waypoints@[0].placement,
{
    let wps = m.waypoints@;
    let len = wps.len() as int;
    let ps = positions_of(wps);
    assert(seg_match(wps, 0, 0));
    assert(first_match_from(wps, 0, 0) == 0);
    if len == 1 {
        vstd::arithmetic::div_mod::lemma_mod_self_0(len);
    } else {
        vstd::arithmetic::div_mod::lemma_small_mod(1nat, len as nat);
        lemma_dist_nonneg(ps[len - 1], ps[0]);
        lemma_prefix_monotone(ps, 1, len - 1);
        assert(wps[1].distance_along_path == prefix_length(ps, 1));
    }
    assert(seg_end_distance(m, 0) <= wps[0].distance_along_path);
}

/// A placement query is a pure function of the model and the distance:
/// two results of `transform_at` for the same inputs are the same
/// placement.
pub proof fn lemma_transform_at_pure(m: PathModel, d: u64, p1: Placement, p2: Placement)
    requires
        p1 == transform_at_spec(m, d as int),
        p2 == transform_at_spec(m, d as int),
    ensures
        p1 == p2,
{
}

} // verus!
