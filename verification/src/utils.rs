//! Positions on the infinite grid and the four facing directions.

use vstd::prelude::*;

verus! {

/// A cell of the grid: a pair of signed coordinates, x then y.
pub type Pos = (i32, i32);

/// A facing direction. Up decreases y, Down increases y, Left decreases x,
/// Right increases x.
#[derive(Clone, Copy, Debug, PartialEq, Eq, Hash, Structural)]
pub enum Dir {
    Up,
    Down,
    Left,
    Right,
}

/// The position one step from `p` in direction `d`, over unbounded integers.
pub open spec fn spec_step(p: (int, int), d: Dir) -> (int, int) {
    match d {
        Dir::Up => (p.0, p.1 - 1),
        Dir::Down => (p.0, p.1 + 1),
        Dir::Left => (p.0 - 1, p.1),
        Dir::Right => (p.0 + 1, p.1),
    }
}

/// The view of a position: its coordinates as unbounded integers.
pub open spec fn pos_view(p: Pos) -> (int, int) {
    (p.0 as int, p.1 as int)
}

/// Whether one step from `p` in direction `d` stays within the machine range
/// of the coordinates.
pub open spec fn step_in_range(p: (int, int), d: Dir) -> bool {
    let q = spec_step(p, d);
    &&& i32::MIN <= q.0 <= i32::MAX
    &&& i32::MIN <= q.1 <= i32::MAX
}

/// Adding a direction to a position yields the adjacent position.
pub fn pos_add(p: Pos, d: Dir) -> (q: Pos)
    requires
        step_in_range(pos_view(p), d),
    ensures
        pos_view(q) == spec_step(pos_view(p), d),
{
    match d {
        Dir::Up => (p.0, p.1 - 1),
        Dir::Down => (p.0, p.1 + 1),
        Dir::Left => (p.0 - 1, p.1),
        Dir::Right => (p.0 + 1, p.1),
    }
}

} // verus!
