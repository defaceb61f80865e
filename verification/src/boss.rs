//! The boss level: a fixed arena with the boss and its guard in the middle,
//! and an armoury in each corner.

use vstd::prelude::*;
use crate::config::GRID_SIZE;
use crate::door::{Door, DoorState, DoorType};
use crate::generation::{door_cell, fill_border};
use crate::grid::{in_grid, on_border, CellType, EnemyType, Grid, WeaponType};

verus! {

/// Row, and column, of the boss.
pub open spec fn middle() -> int {
    GRID_SIZE as int / 2
}

/// How many cells `(y, x)` lies from the boss, counting diagonal steps as one.
pub open spec fn rings_from_middle(y: int, x: int) -> int {
    let dy = if y >= middle() {
        y - middle()
    } else {
        middle() - y
    };
    let dx = if x >= middle() {
        x - middle()
    } else {
        middle() - x
    };
    if dy >= dx {
        dy
    } else {
        dx
    }
}

/// The enemy that stands on `(y, x)`: the big one in the middle, mid-sized ones on the ring
/// around it, small ones on the ring around those.
pub open spec fn boss_guard(y: int, x: int) -> Option<CellType> {
    let rings = rings_from_middle(y, x);
    if rings == 0 {
        Some(CellType::Enemy(EnemyType::Big))
    } else if rings == 1 {
        Some(CellType::Enemy(EnemyType::Mid))
    } else if rings == 2 {
        Some(CellType::Enemy(EnemyType::Small))
    } else {
        None
    }
}

/// `(y, x)` holds a wall of one of the four armouries.
pub open spec fn is_armoury_wall(y: int, x: int) -> bool {
    let g = GRID_SIZE as int;
    ||| (y == 4 && x == g - 6) || (y == 5 && x == g - 5) || (y == 6 && x == g - 4)
    ||| (y == g - 4 && x == 6) || (y == g - 5 && x == 5) || (y == g - 6 && x == 4)
    ||| (y == 4 && 4 <= x <= 7) || (x == 4 && 4 <= y <= 7)
    ||| (y == g - 4 && g - 7 <= x <= g - 4) || (x == g - 4 && g - 7 <= y <= g - 4)
}

/// The weapon that lies on `(y, x)`: shotguns in the top right and bottom left armoury,
/// miniguns in the two others.
pub open spec fn armoury_weapon(y: int, x: int) -> Option<WeaponType> {
    let g = GRID_SIZE as int;
    if (y == 4 && x == g - 5) || (y == 5 && x == g - 4) || (y == g - 4 && x == 5) || (y == g - 5
        && x == 4) {
        Some(WeaponType::Shotgun)
    } else if (y == 3 && x == 5) || (y == 5 && x == 3) || (y == g - 3 && x == g - 5) || (y == g
        - 5 && x == g - 3) {
        Some(WeaponType::Minigun)
    } else {
        None
    }
}

/// The door of a boss level: the mirror of the door the player came through, `TemporaryOpen`.
pub open spec fn boss_door(previous: Door) -> Door {
    Door {
        door_type: previous.door_type.spec_opposite(),
        door_state: DoorState::TemporaryOpen,
        grid_pos: previous.grid_pos,
    }
}

/// The tag of cell `(y, x)` of the boss level entered through `previous`.
///
/// The border is closed but for the one door. There is no way on from a boss level.
pub open spec fn boss_cell(previous: Door, y: int, x: int) -> CellType {
    let door = boss_door(previous);
    if on_border(y, x) {
        if (y, x) == door_cell(door.door_type, door.grid_pos as int) {
            CellType::Door(door)
        } else {
            CellType::Column
        }
    } else if is_armoury_wall(y, x) {
        CellType::Column
    } else if armoury_weapon(y, x) is Some {
        CellType::Weapon(armoury_weapon(y, x)->0)
    } else if boss_guard(y, x) is Some {
        boss_guard(y, x)->0
    } else {
        CellType::Empty
    }
}

/// `grid` is the boss level entered through `previous`.
pub open spec fn is_boss_level(grid: &Grid, previous: Door) -> bool {
    forall|y: int, x: int| in_grid(y, x) ==> #[trigger] grid.cell(y, x) == boss_cell(previous, y, x)
}

/// Places the boss and its two rings of guards.
fn place_guard(grid: &mut Grid)
    ensures
        forall|y: int, x: int|
            in_grid(y, x) ==> #[trigger] final(grid).cell(y, x) == (match boss_guard(y, x) {
                Some(cell) => cell,
                None => old(grid).cell(y, x),
            }),
{
    let middle = GRID_SIZE / 2;
    let mut y: usize = middle - 2;
    while y <= middle + 2
        invariant
            middle == GRID_SIZE / 2,
            middle - 2 <= y <= middle + 3,
            forall|r: int, c: int|
                in_grid(r, c) ==> #[trigger] grid.cell(r, c) == (if boss_guard(r, c) is Some && r
                    < y {
                    boss_guard(r, c)->0
                } else {
                    old(grid).cell(r, c)
                }),
        decreases middle + 3 - y,
    {
        let mut x: usize = middle - 2;
        while x <= middle + 2
            invariant
                middle == GRID_SIZE / 2,
                middle - 2 <= y <= middle + 2,
                middle - 2 <= x <= middle + 3,
                forall|r: int, c: int|
                    in_grid(r, c) ==> #[trigger] grid.cell(r, c) == (if boss_guard(r, c) is Some
                        && (r < y || (r == y && c < x)) {
                        boss_guard(r, c)->0
                    } else {
                        old(grid).cell(r, c)
                    }),
            decreases middle + 3 - x,
        {
            let enemy = if y == middle && x == middle {
                EnemyType::Big
            } else if middle - 1 <= y && y <= middle + 1 && middle - 1 <= x && x <= middle + 1 {
                EnemyType::Mid
            } else {
                EnemyType::Small
            };
            grid.set(y, x, CellType::Enemy(enemy));
            x = x + 1;
        }
        y = y + 1;
    }
}

/// Builds the four armouries: their walls and the weapons behind them.
fn place_armouries(grid: &mut Grid)
    ensures
        forall|y: int, x: int|
            in_grid(y, x) ==> #[trigger] final(grid).cell(y, x) == (if is_armoury_wall(y, x) {
                CellType::Column
            } else if armoury_weapon(y, x) is Some {
                CellType::Weapon(armoury_weapon(y, x)->0)
            } else {
                old(grid).cell(y, x)
            }),
{
    let g = GRID_SIZE;
    grid.set(4, g - 6, CellType::Column);
    grid.set(5, g - 5, CellType::Column);
    grid.set(6, g - 4, CellType::Column);
    grid.set(4, g - 5, CellType::Weapon(WeaponType::Shotgun));
    grid.set(5, g - 4, CellType::Weapon(WeaponType::Shotgun));
    grid.set(g - 4, 6, CellType::Column);
    grid.set(g - 5, 5, CellType::Column);
    grid.set(g - 6, 4, CellType::Column);
    grid.set(g - 4, 5, CellType::Weapon(WeaponType::Shotgun));
    grid.set(g - 5, 4, CellType::Weapon(WeaponType::Shotgun));
    grid.set(3, 5, CellType::Weapon(WeaponType::Minigun));
    grid.set(5, 3, CellType::Weapon(WeaponType::Minigun));
    grid.set(g - 3, g - 5, CellType::Weapon(WeaponType::Minigun));
    grid.set(g - 5, g - 3, CellType::Weapon(WeaponType::Minigun));
    let ghost scattered = *grid;
    let mut i: usize = 0;
    while i < 4
        invariant
            i <= 4,
            g == GRID_SIZE,
            forall|y: int, x: int|
                in_grid(y, x) ==> #[trigger] grid.cell(y, x) == (if (y == 4 && 4 <= x < 4 + i) || (x
                    == 4 && 4 <= y < 4 + i) || (y == g - 4 && g - 4 - i < x <= g - 4) || (x == g
                    - 4 && g - 4 - i < y <= g - 4) {
                    CellType::Column
                } else {
                    scattered.cell(y, x)
                }),
        decreases 4 - i,
    {
        grid.set(4, 4 + i, CellType::Column);
        grid.set(4 + i, 4, CellType::Column);
        grid.set(g - 4, g - 4 - i, CellType::Column);
        grid.set(g - 4 - i, g - 4, CellType::Column);
        i = i + 1;
    }
}

/// Generates the grid of the boss level behind `previous_door`. A boss level is never the
/// first of a run: there is a door that the player came through.
pub fn generate_boss_level(previous_door: Option<Door>) -> (grid: Grid)
    requires
        previous_door is Some,
        previous_door->0.wf(),
    ensures
        is_boss_level(&grid, previous_door->0),
{
    let previous = previous_door.unwrap();
    let mut grid = Grid::new();
    fill_border(&mut grid);
    let door = Door {
        door_type: previous.door_type.opposite(),
        door_state: DoorState::TemporaryOpen,
        grid_pos: previous.grid_pos,
    };
    match door.door_type {
        DoorType::Top => grid.set(0, door.grid_pos, CellType::Door(door)),
        DoorType::Bottom => grid.set(GRID_SIZE - 1, door.grid_pos, CellType::Door(door)),
        DoorType::Left => grid.set(door.grid_pos, 0, CellType::Door(door)),
        DoorType::Right => grid.set(door.grid_pos, GRID_SIZE - 1, CellType::Door(door)),
    }
    place_guard(&mut grid);
    place_armouries(&mut grid);
    grid
}

} // verus!
