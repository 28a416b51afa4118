//! What a tile-based dungeon host is made of: tiles, positions in the
//! window, and the component that moves them.

use vstd::prelude::*;
use crate::drawing::{fits_i32, greater, lesser};

verus! {

/// The width of the host window in tiles.
pub const WINDOW_WIDTH: u32 = 80;

/// The height of the host window in tiles.
pub const WINDOW_HEIGHT: u32 = 50;

/// The largest column of the window.
pub const MAX_WIDTH: i32 = 79;

/// The largest row of the window.
pub const MAX_HEIGHT: i32 = 49;

/// What a tile of a dungeon map is made of.
#[derive(Debug, Clone, Copy, PartialEq, Eq, Structural)]
pub enum TileType {
    Wall,
    Floor,
    Hole,
    Door,
}

/// A tile position.
#[derive(Debug, Clone, Copy, PartialEq, Eq, Structural)]
pub struct IPosition {
    pub x: i32,
    pub y: i32,
}

/// Moves whatever carries it to the left, `speed` columns at a time.
#[derive(Debug, Clone, Copy, PartialEq, Eq, Structural)]
pub struct Mover {
    pub speed: i32,
}

/// `v` kept inside `[0, limit]`.
pub open spec fn kept_in_window(v: int, limit: int) -> int {
    lesser(limit, greater(0, v))
}

/// The column `v` brought back into the window from the other side: a
/// column past the last becomes the first, one before the first the last.
pub open spec fn around_window(v: int) -> int {
    if v > MAX_WIDTH {
        0
    } else if v < 0 {
        MAX_WIDTH as int
    } else {
        v
    }
}

impl IPosition {
    /// Moves the position by `(x, y)` and keeps it inside the window.
    pub fn move_relative(&mut self, x: i32, y: i32)
        requires
            fits_i32(old(self).x + x),
            fits_i32(old(self).y + y),
        ensures
            final(self).x == kept_in_window(old(self).x + x, MAX_WIDTH as int),
            final(self).y == kept_in_window(old(self).y + y, MAX_HEIGHT as int),
    {
        let moved_x = self.x + x;
        let moved_y = self.y + y;
        let floor_x = if moved_x > 0 {
            moved_x
        } else {
            0
        };
        let floor_y = if moved_y > 0 {
            moved_y
        } else {
            0
        };
        self.x = if floor_x < MAX_WIDTH {
            floor_x
        } else {
            MAX_WIDTH
        };
        self.y = if floor_y < MAX_HEIGHT {
            floor_y
        } else {
            MAX_HEIGHT
        };
    }
}

impl Mover {
    /// A mover of speed 1.
    pub fn init() -> (m: Mover)
        ensures
            m.speed == 1,
    {
        Mover { speed: 1 }
    }

    /// Moves `pos` to the left by the speed, and around the window where it
    /// leaves it on either side.
    pub fn run(&self, pos: &mut IPosition)
        requires
            fits_i32(old(pos).x - self.speed),
        ensures
            final(pos).x == around_window(old(pos).x - self.speed),
            final(pos).y == old(pos).y,
    {
        pos.x -= self.speed;
        if pos.x > MAX_WIDTH {
            pos.x = 0;
        } else if pos.x < 0 {
            pos.x = MAX_WIDTH;
        }
    }
}

} // verus!
