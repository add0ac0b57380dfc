//! Arc-length-parametrized path construction and constant-speed path
//! following over fixed-point integer geometry.
//!
//! A level's authored geometry (an ordered list of 3-D points plus the
//! placement of their parent object) is turned into a [`model::PathModel`]:
//! a closed loop of waypoints annotated with their cumulative distance from
//! the start of the path.  A [`follower::PathFollower`] then advances a
//! distance cursor along that loop at a constant speed and reads back an
//! interpolated placement each tick.
//!
//! All geometry is held in fixed-point integers so that every contract is
//! exact: positions and distances are plain units chosen by the caller,
//! rotation components are scaled by [`fixed::ONE`].

use vstd::prelude::*;

pub mod extract;
pub mod fixed;
pub mod follower;
pub mod geometry;
pub mod lifecycle;
pub mod math;
pub mod model;
pub mod placement;
pub mod rotation;
pub mod vec3;

verus! {

/// The recoverable failure modes of path construction and following.
///
/// Every one of them is absorbed locally into a safe default (a degenerate
/// model, an identity placement, a stationary follower); none may halt the
/// simulation.
#[derive(Clone, Copy, Debug, PartialEq, Eq, Structural)]
pub enum PathError {
    /// Fewer than two input vertices were supplied to the extractor.
    InvalidGeometry,
    /// Two or more vertices were supplied but the path length is zero.
    DegeneratePath,
    /// A follower was advanced without a bound path model.
    UnboundFollower,
}

} // verus!
