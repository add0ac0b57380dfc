//! The path follower: per-entity cursor state that advances along a
//! shared, read-only path model at constant speed each simulation tick
//! and reads back the placement to apply to its entity.
//!
//! This is positional control, not velocity integration: the entity's
//! placement is fully determined by the distance cursor.

use vstd::prelude::*;
use crate::PathError;
use crate::model::{PathModel, lemma_total_length_bound, transform_at_spec};
use crate::placement::Placement;

verus! {

/// The follower speed used when no per-follower configuration exists, in
/// distance units per second.  It is a named constant, and a parameter of
/// [`PathFollower::advance`], so that it has a clear place to become a
/// configuration option.
pub const DEFAULT_SPEED: u64 = 20;

/// Per-entity follower state: the distance cursor along the bound path
/// model, always held inside `[0, total_length)`.
#[derive(Clone, Copy, Debug, PartialEq, Eq, Structural)]
pub struct PathFollower {
    pub distance_along_path: u64,
}

/// Where a cursor lands after advancing by `delta` along a loop of length
/// `total`: wrapped by modular arithmetic, or clamped to zero on a
/// zero-length loop (never a division by zero).
pub open spec fn advanced_distance(d: int, delta: int, total: int) -> int {
    if total == 0 {
        0
    } else {
        (d + delta) % total
    }
}

impl PathFollower {
    /// A fresh follower standing at the start of the path.
    pub fn spawn() -> (f: PathFollower)
        ensures
            f.distance_along_path == 0,
    {
        PathFollower { distance_along_path: 0 }
    }

    /// The cursor is valid for the model: inside the loop, and pinned to
    /// zero when the loop has no length.
    pub open spec fn wf_for(self, m: PathModel) -> bool {
        if m.total_length == 0 {
            self.distance_along_path == 0
        } else {
            self.distance_along_path < m.total_length
        }
    }

    /// Advance the cursor by `speed * elapsed` and read the placement at
    /// the new distance.  `elapsed` is the tick's seconds at scale
    /// [`crate::fixed::ONE`]; `speed` is distance units per second.  On a
    /// zero-length model the cursor never moves and nothing is divided by
    /// zero; otherwise the new cursor is the old one plus the travelled
    /// distance, wrapped around the loop.
    pub fn advance(&mut self, model: &PathModel, elapsed: u64, speed: u64) -> (p: Placement)
        requires
            model.wf(),
            old(self).wf_for(*model),
            speed * elapsed <= u64::MAX,
        ensures
            final(self).distance_along_path == advanced_distance(
                old(self).distance_along_path as int,
                speed * elapsed / 65536,
                model.total_length as int,
            ),
            final(self).wf_for(*model),
            p == transform_at_spec(*model, final(self).distance_along_path as int),
            model.total_length == 0 ==> final(self).distance_along_path == 0,
    {
        let delta: u64 = (speed * elapsed) / 65536;
        let total = model.total_length;
        if total == 0 {
            self.distance_along_path = 0;
        } else {
            proof {
                lemma_total_length_bound(*model);
                vstd::arithmetic::div_mod::lemma_div_nonincreasing(
                    (speed * elapsed) as int,
                    65536,
                );
            }
            let nd: u64 = (self.distance_along_path + delta) % total;
            proof {
                vstd::arithmetic::div_mod::lemma_mod_bound(
                    (self.distance_along_path + delta) as int,
                    total as int,
                );
            }
            self.distance_along_path = nd;
        }
        let p = model.transform_at(self.distance_along_path);
        p
    }

    /// Advance only when a model is bound.  An unbound follower — its
    /// level not yet loaded — stays put, and instead of skipping
    /// silently the call reports `UnboundFollower` so the host can count
    /// or log the condition.
    pub fn advance_bound(
        &mut self,
        model: Option<&PathModel>,
        elapsed: u64,
        speed: u64,
    ) -> (r: Result<Placement, PathError>)
        requires
            match model {
                Some(m) => m.wf() && old(self).wf_for(*m),
                None => true,
            },
            speed * elapsed <= u64::MAX,
        ensures
            match model {
                Some(m) => {
                    &&& final(self).distance_along_path == advanced_distance(
                        old(self).distance_along_path as int,
                        speed * elapsed / 65536,
                        m.total_length as int,
                    )
                    &&& final(self).wf_for(*m)
                    &&& r == Ok::<Placement, PathError>(
                        transform_at_spec(*m, final(self).distance_along_path as int),
                    )
                },
                None => {
                    &&& r == Err::<Placement, PathError>(PathError::UnboundFollower)
                    &&& *final(self) == *old(self)
                },
            },
    {
        match model {
            Some(m) => Ok(self.advance(m, elapsed, speed)),
            None => Err(PathError::UnboundFollower),
        }
    }
}

/// The looping law: advancing a cursor by exactly the loop's length
/// brings it back to where it stood, so a follower that travels
/// `total_length` distance (elapsed time `total_length / speed`) returns
/// to its starting distance and keeps advancing without discontinuity.
pub proof fn lemma_full_loop_returns(d: int, total: int)
    requires
        0 <= d < total,
    ensures
        advanced_distance(d, total, total) == d,
{
    vstd::arithmetic::div_mod::lemma_mod_add_multiples_vanish(d, total);
    vstd::arithmetic::div_mod::lemma_small_mod(d as nat, total as nat);
}

/// A follower bound to a zero-length model never moves, whatever the
/// elapsed time and speed.
pub proof fn lemma_zero_length_never_advances(d: int, delta: int)
    ensures
        advanced_distance(d, delta, 0) == 0,
{
}

} // verus!
