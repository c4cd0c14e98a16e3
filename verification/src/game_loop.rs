//! The decision logic of the game-loop driver.
//!
//! The driver itself (init, draw, read input, persist, cleanup) lives with
//! the embedding program; the engine only decides how the loop's own result
//! and the mandatory cleanup's result combine.

use vstd::prelude::*;

verus! {

/// The outcome of a finished game loop. Cleanup is always attempted, but the
/// loop's own failure takes precedence over a cleanup failure, so the
/// original failure reason is never masked.
pub fn loop_outcome<E>(run: Result<(), E>, cleanup: Result<(), E>) -> (r: Result<(), E>)
    ensures
        run is Ok && cleanup is Ok ==> r is Ok,
        run is Err ==> r == run,
        run is Ok && cleanup is Err ==> r == cleanup,
{
    match (run, cleanup) {
        (Ok(()), Ok(())) => Ok(()),
        (Err(e), _) => Err(e),
        (Ok(()), Err(e)) => Err(e),
    }
}

} // verus!
