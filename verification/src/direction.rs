//! The four directions a snake can travel in.

use vstd::prelude::*;
use crate::text::same_text;

verus! {

/// A direction of travel on the grid.
#[derive(Debug, Clone, Copy, PartialEq, Eq, Structural)]
pub enum Direction {
    Up,
    Down,
    Left,
    Right,
}

/// The direction that a key stands for: the four arrow keys by the names
/// that a browser gives them; no other key stands for one.
pub open spec fn key_direction(key: Seq<char>) -> Option<Direction> {
    if key == "ArrowLeft"@ {
        Some(Direction::Left)
    } else if key == "ArrowRight"@ {
        Some(Direction::Right)
    } else if key == "ArrowDown"@ {
        Some(Direction::Down)
    } else if key == "ArrowUp"@ {
        Some(Direction::Up)
    } else {
        None
    }
}

impl Direction {
    /// The direction that the key named `key` asks for, if it is an arrow
    /// key.
    pub fn from_key(key: &str) -> (r: Option<Direction>)
        ensures
            r == key_direction(key@),
    {
        if same_text(key, "ArrowLeft") {
            Some(Direction::Left)
        } else if same_text(key, "ArrowRight") {
            Some(Direction::Right)
        } else if same_text(key, "ArrowDown") {
            Some(Direction::Down)
        } else if same_text(key, "ArrowUp") {
            Some(Direction::Up)
        } else {
            None
        }
    }

    /// Whether `self` and `other` point against each other: the pair
    /// up and down, or the pair left and right, in either order.
    pub open spec fn is_opposite(self, other: Direction) -> bool {
        match (self, other) {
            (Direction::Up, Direction::Down) => true,
            (Direction::Down, Direction::Up) => true,
            (Direction::Left, Direction::Right) => true,
            (Direction::Right, Direction::Left) => true,
            _ => false,
        }
    }

    /// The direction that points against `self`.
    pub open spec fn reversed(self) -> Direction {
        match self {
            Direction::Up => Direction::Down,
            Direction::Down => Direction::Up,
            Direction::Left => Direction::Right,
            Direction::Right => Direction::Left,
        }
    }

    /// Tells whether turning from `self` to `other` would be a reversal.
    pub fn opposite(self, other: Direction) -> (r: bool)
        ensures
            r == self.is_opposite(other),
            r == (other == self.reversed()),
    {
        match (self, other) {
            (Direction::Up, Direction::Down) => true,
            (Direction::Down, Direction::Up) => true,
            (Direction::Left, Direction::Right) => true,
            (Direction::Right, Direction::Left) => true,
            _ => false,
        }
    }
}

} // verus!
