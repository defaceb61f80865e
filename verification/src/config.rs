//! Design knobs of a level. Lengths are in thousandths of a world unit, so
//! that every position the level geometry needs is a whole number.

use vstd::prelude::*;

verus! {

/// Thousandths per world unit.
pub const UNIT: i64 = 1000;

/// Edge length of a level's square footprint.
pub const LEVEL_SIZE: i64 = 200000;

/// Edge length of one grid cell.
pub const COLUMN_SIZE: i64 = 5000;

/// Height of a column, and of a door.
pub const COLUMN_HIGHT: i64 = 10000;

/// Thickness of the floor and roof slabs.
pub const FLOOR_THICKNESS: i64 = 1000;

/// Thickness of a door leaf.
pub const DOOR_THICKNESS: i64 = 2000;

/// Cells along one edge of the grid: `LEVEL_SIZE / COLUMN_SIZE`.
pub const GRID_SIZE: usize = 40;

/// Share of the grid, in percent, that the wall fill aims to cover.
pub const FILL_PERCENT: usize = 2;

/// Steps of one random-walk wall strip.
pub const STRIP_LENGTH: usize = 3;

/// Strips dropped by the wall fill: `(GRID_SIZE² × FILL_PERCENT / 100) / STRIP_LENGTH`.
pub const NUM_STRIPS: usize = 10;

/// Weapons placed per level.
pub const LEVEL_WEAPON_SPAWNS: usize = 4;

/// Enemies placed per level.
pub const LEVEL_ENEMIES: usize = 4;

/// A weapon roll in `0..100` below this value gives a shotgun, any other a minigun.
pub const LEVEL_WEAPON_SHOTGUN_SPAWN_THRESHOLD: usize = 80;

/// Chance, in percent, that a placed enemy is a small one.
pub const LEVEL_SMALL_ENEMIES_PERCENT: u32 = 60;

/// Chance, in percent, that a free cell of the light lattice carries a light.
pub const LEVEL_LIGHTS_COVERAGE_PERCENT: u32 = 20;

/// Distance between neighbouring rows, and columns, of the light lattice.
pub const LIGHT_STRIDE: usize = 3;

/// Random cells tried for one placement before the grid is scanned instead.
pub const PLACEMENT_ATTEMPTS: usize = 64;

/// Progress, in percent of a run, that each level switch adds. The level entered at 100
/// percent is the boss level.
pub const PROGRESS_PER_LEVEL: u32 = 10;

/// How far a door slides when it opens or closes.
pub const DOOR_ANIMATION_DISTANCE: i64 = 4800;

/// The constants agree with the formulas they are derived from.
pub proof fn lemma_config_consistent()
    ensures
        GRID_SIZE as int == LEVEL_SIZE / COLUMN_SIZE,
        NUM_STRIPS as int == (GRID_SIZE * GRID_SIZE * FILL_PERCENT / 100) / STRIP_LENGTH as int,
        LEVEL_SMALL_ENEMIES_PERCENT <= 100,
        LEVEL_LIGHTS_COVERAGE_PERCENT <= 100,
        LEVEL_WEAPON_SHOTGUN_SPAWN_THRESHOLD <= 100,
{
}

} // verus!
