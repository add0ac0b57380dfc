//! The two-state load lifecycle of a level's path geometry, polled once
//! per tick: loading until the geometry is observed loaded, then loaded
//! for good.  There is exactly one transition, and it only goes forward;
//! a new level rebuilds its state from scratch instead of going back.

use vstd::prelude::*;

verus! {

/// Whether the level's geometry is still being loaded or is ready for
/// path extraction.
#[derive(Clone, Copy, Debug, PartialEq, Eq, Structural)]
pub enum LevelState {
    Loading,
    Loaded,
}

/// One poll of the lifecycle: a loading level becomes loaded exactly when
/// the geometry has been observed loaded, and a loaded level stays loaded
/// whatever is observed.
pub fn poll_level_state(state: LevelState, geometry_loaded: bool) -> (next: LevelState)
    ensures
        next == (if state is Loaded || geometry_loaded {
            LevelState::Loaded
        } else {
            LevelState::Loading
        }),
        state is Loaded ==> next is Loaded,
{
    match state {
        LevelState::Loaded => LevelState::Loaded,
        LevelState::Loading => if geometry_loaded {
            LevelState::Loaded
        } else {
            LevelState::Loading
        },
    }
}

} // verus!
