//! Cells of the grid and how one moves between them.

use vstd::prelude::*;
use vstd::arithmetic::div_mod::{lemma_mod_self_0, lemma_small_mod, lemma_mod_add_multiples_vanish};
use crate::direction::Direction;

verus! {

/// A cell of the grid: its column, then its row.
#[derive(Debug, Clone, Copy, PartialEq, Eq, Structural)]
pub struct Block(pub u32, pub u32);

/// Whether `b` lies on a grid of `width` columns and `height` rows.
pub open spec fn in_grid(b: Block, width: u32, height: u32) -> bool {
    b.0 < width && b.1 < height
}

/// The cell one step from `b` in direction `d` on a grid without walls:
/// each coordinate is taken modulo its dimension, so a step off one edge
/// arrives at the opposite edge.
pub open spec fn moved(b: Block, d: Direction, width: u32, height: u32) -> Block {
    match d {
        Direction::Up => Block(b.0, ((b.1 + height - 1) % (height as int)) as u32),
        Direction::Down => Block(b.0, ((b.1 + 1) % (height as int)) as u32),
        Direction::Left => Block(((b.0 + width - 1) % (width as int)) as u32, b.1),
        Direction::Right => Block(((b.0 + 1) % (width as int)) as u32, b.1),
    }
}

/// One step back on an axis of length `n`, wrapping from 0 to `n - 1`.
fn back(v: u32, n: u32) -> (r: u32)
    requires
        v < n,
    ensures
        r == (v + n - 1) % (n as int),
        r < n,
{
    proof {
        lemma_axis(v, n);
    }
    if v == 0 {
        n - 1
    } else {
        v - 1
    }
}

/// One step forth on an axis of length `n`, wrapping from `n - 1` to 0.
fn forth(v: u32, n: u32) -> (r: u32)
    requires
        v < n,
    ensures
        r == (v + 1) % (n as int),
        r < n,
{
    proof {
        lemma_axis(v, n);
    }
    if v + 1 == n {
        0
    } else {
        v + 1
    }
}

impl Block {
    /// Moves one cell in direction `d`, wrapping around the edges of the grid.
    pub fn step(self, d: Direction, width: u32, height: u32) -> (r: Block)
        requires
            in_grid(self, width, height),
        ensures
            r == moved(self, d, width, height),
            in_grid(r, width, height),
    {
        match d {
            Direction::Up => Block(self.0, back(self.1, height)),
            Direction::Down => Block(self.0, forth(self.1, height)),
            Direction::Left => Block(back(self.0, width), self.1),
            Direction::Right => Block(forth(self.0, width), self.1),
        }
    }
}

/// A step from a cell of the grid arrives at a cell of the grid.
pub proof fn lemma_moved_in_grid(b: Block, d: Direction, width: u32, height: u32)
    requires
        in_grid(b, width, height),
    ensures
        in_grid(moved(b, d, width, height), width, height),
{
    lemma_axis(b.0, width);
    lemma_axis(b.1, height);
}

/// At an edge a step outwards arrives at the opposite edge, in the same row
/// or column; anywhere else it changes one coordinate by one.
pub proof fn lemma_moved_wraps(b: Block, width: u32, height: u32)
    requires
        in_grid(b, width, height),
    ensures
        moved(b, Direction::Left, width, height) == Block(
            if b.0 == 0 { (width - 1) as u32 } else { (b.0 - 1) as u32 },
            b.1,
        ),
        moved(b, Direction::Right, width, height) == Block(
            if b.0 == width - 1 { 0u32 } else { (b.0 + 1) as u32 },
            b.1,
        ),
        moved(b, Direction::Up, width, height) == Block(
            b.0,
            if b.1 == 0 { (height - 1) as u32 } else { (b.1 - 1) as u32 },
        ),
        moved(b, Direction::Down, width, height) == Block(
            b.0,
            if b.1 == height - 1 { 0u32 } else { (b.1 + 1) as u32 },
        ),
{
    lemma_axis(b.0, width);
    lemma_axis(b.1, height);
}

/// What the two steps along one axis of length `n` come to.
proof fn lemma_axis(v: u32, n: u32)
    requires
        v < n,
    ensures
        (v + n - 1) % (n as int) == (if v == 0 { n - 1 } else { v - 1 }),
        (v + 1) % (n as int) == (if v == n - 1 { 0 } else { v + 1 }),
{
    if v == 0 {
        lemma_small_mod((n - 1) as nat, n as nat);
    } else {
        lemma_small_mod((v - 1) as nat, n as nat);
        lemma_mod_add_multiples_vanish(v - 1, n as int);
    }
    if v + 1 == n {
        lemma_mod_self_0(n as int);
    } else {
        lemma_small_mod((v + 1) as nat, n as nat);
    }
}

} // verus!
