//! What a level is to the world around the grid: where it stands, and whether
//! it has a roof.

use vstd::prelude::*;
use crate::config::LEVEL_SIZE;
use crate::door::{Door, DoorType};

verus! {

/// A point of world space, in thousandths of a world unit. A level is anchored at the
/// centre of its floor.
#[derive(Debug, Clone, Copy, PartialEq, Eq, Structural)]
pub struct Translation {
    pub x: i64,
    pub y: i64,
    pub z: i64,
}

/// No coordinate of a level anchor may lie further than this from the origin, so that the
/// positions of a level and of its neighbours can be computed in `i64`.
pub const WORLD_LIMIT: i64 = 4000000000000000000;

impl Translation {
    /// The origin.
    pub fn zero() -> (t: Translation)
        ensures
            t == (Translation { x: 0, y: 0, z: 0 }),
            t.in_world(),
    {
        Translation { x: 0, y: 0, z: 0 }
    }

    /// Every coordinate lies within `WORLD_LIMIT` of the origin.
    pub open spec fn in_world(self) -> bool {
        &&& -WORLD_LIMIT <= self.x <= WORLD_LIMIT
        &&& -WORLD_LIMIT <= self.y <= WORLD_LIMIT
        &&& -WORLD_LIMIT <= self.z <= WORLD_LIMIT
    }

    /// Computes [`Translation::in_world`].
    pub fn is_in_world(&self) -> (r: bool)
        ensures
            r == self.in_world(),
    {
        -WORLD_LIMIT <= self.x && self.x <= WORLD_LIMIT && -WORLD_LIMIT <= self.y && self.y
            <= WORLD_LIMIT && -WORLD_LIMIT <= self.z && self.z <= WORLD_LIMIT
    }

    /// The point `dx`, `dy`, `dz` away from `self`.
    pub open spec fn offset(self, dx: int, dy: int, dz: int) -> (int, int, int) {
        (self.x + dx, self.y + dy, self.z + dz)
    }

    /// The coordinates as mathematical integers.
    pub open spec fn view(self) -> (int, int, int) {
        (self.x as int, self.y as int, self.z as int)
    }
}

/// Tint of the sky over a level without a roof.
#[derive(Debug, Clone, Copy, PartialEq, Eq, Structural)]
pub enum LevelColor {
    Pink,
    Orange,
    Blue,
    Normal,
    Green,
}

/// A level is covered by a roof, or open to a tinted sky.
#[derive(Debug, Clone, Copy, PartialEq, Eq, Structural)]
pub enum LevelType {
    Covered,
    Open(LevelColor),
}

/// Where the next level stands when the player leaves a level anchored at `anchor` through
/// `previous_door`: one level size on, in the direction the door faces. A first level, with
/// no door behind it, stands at `anchor` itself.
pub open spec fn spec_next_translation(anchor: Translation, previous_door: Option<Door>) -> (
    int,
    int,
    int,
) {
    match previous_door {
        Some(door) => match door.door_type {
            DoorType::Top => anchor.offset(0, LEVEL_SIZE as int, 0),
            DoorType::Bottom => anchor.offset(0, -LEVEL_SIZE, 0),
            DoorType::Left => anchor.offset(-LEVEL_SIZE, 0, 0),
            DoorType::Right => anchor.offset(LEVEL_SIZE as int, 0, 0),
        },
        None => anchor@,
    }
}

/// Computes [`spec_next_translation`].
pub fn next_translation(anchor: Translation, previous_door: Option<Door>) -> (next: Translation)
    requires
        anchor.in_world(),
    ensures
        next@ == spec_next_translation(anchor, previous_door),
{
    match previous_door {
        Some(door) => match door.door_type {
            DoorType::Top => Translation { x: anchor.x, y: anchor.y + LEVEL_SIZE, z: anchor.z },
            DoorType::Bottom => Translation { x: anchor.x, y: anchor.y - LEVEL_SIZE, z: anchor.z },
            DoorType::Left => Translation { x: anchor.x - LEVEL_SIZE, y: anchor.y, z: anchor.z },
            DoorType::Right => Translation { x: anchor.x + LEVEL_SIZE, y: anchor.y, z: anchor.z },
        },
        None => anchor,
    }
}

} // verus!
