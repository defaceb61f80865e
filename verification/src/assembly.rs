//! The level assembler: from a grid to the list of things to spawn, each at
//! its place in the world.

use vstd::prelude::*;
use crate::config::{COLUMN_HIGHT, COLUMN_SIZE, FLOOR_THICKNESS, GRID_SIZE, LEVEL_SIZE};
use crate::boss::{generate_boss_level, is_boss_level};
use crate::door::{Door, DoorType};
use crate::generation::{generate_normal_level, is_generated};
use crate::grid::{in_grid, CellType, EnemyType, Grid, WeaponType};
use crate::layout::{door_on, lemma_door_on, lemma_first_level};
use crate::level::{next_translation, spec_next_translation, LevelType, Translation, WORLD_LIMIT};

verus! {

/// What is to be spawned.
#[derive(Debug, Clone, Copy, PartialEq, Eq, Structural)]
pub enum SpawnKind {
    Door(Door),
    Column,
    Light,
    Weapon(WeaponType),
    Enemy(EnemyType),
    Player,
    Floor,
    Roof,
}

/// One thing to spawn, and where. Everything on the list belongs to the level it was
/// assembled for.
#[derive(Debug, Clone, Copy, PartialEq, Eq, Structural)]
pub struct Spawn {
    pub kind: SpawnKind,
    pub translation: Translation,
}

/// The point `dx`, `dy`, `dz` away from `anchor`.
pub open spec fn spec_place(anchor: Translation, dx: int, dy: int, dz: int) -> Translation {
    Translation {
        x: (anchor.x + dx) as i64,
        y: (anchor.y + dy) as i64,
        z: (anchor.z + dz) as i64,
    }
}

/// Computes [`spec_place`], for an anchor and a distance that can belong to a level.
pub fn place(anchor: Translation, dx: i64, dy: i64, dz: i64) -> (t: Translation)
    requires
        -WORLD_LIMIT - LEVEL_SIZE <= anchor.x <= WORLD_LIMIT + LEVEL_SIZE,
        -WORLD_LIMIT - LEVEL_SIZE <= anchor.y <= WORLD_LIMIT + LEVEL_SIZE,
        -WORLD_LIMIT - LEVEL_SIZE <= anchor.z <= WORLD_LIMIT + LEVEL_SIZE,
        -LEVEL_SIZE <= dx <= LEVEL_SIZE,
        -LEVEL_SIZE <= dy <= LEVEL_SIZE,
        -LEVEL_SIZE <= dz <= LEVEL_SIZE,
    ensures
        t == spec_place(anchor, dx as int, dy as int, dz as int),
        t@ == anchor.offset(dx as int, dy as int, dz as int),
{
    Translation { x: anchor.x + dx, y: anchor.y + dy, z: anchor.z + dz }
}

/// Centre of cell `(y, x)` on the floor plan of a level, from the level's anchor: columns
/// run along the x axis, rows run down the y axis from the top edge.
pub open spec fn cell_offset(y: int, x: int) -> (int, int) {
    (
        -LEVEL_SIZE / 2 + COLUMN_SIZE * x + COLUMN_SIZE / 2,
        LEVEL_SIZE / 2 - COLUMN_SIZE * y - COLUMN_SIZE / 2,
    )
}

/// What cell `(y, x)` of a level anchored at `anchor` spawns, if anything.
///
/// An `Empty` cell spawns nothing, and a `Light` cell only under a roof. A light hangs at
/// column height; everything else stands at half that height above the anchor.
pub open spec fn cell_spawn(
    cell: CellType,
    y: int,
    x: int,
    anchor: Translation,
    level_type: LevelType,
) -> Option<Spawn> {
    let (dx, dy) = cell_offset(y, x);
    let at = spec_place(anchor, dx, dy, COLUMN_HIGHT / 2);
    match cell {
        CellType::Empty => None,
        CellType::Door(door) => Some(Spawn { kind: SpawnKind::Door(door), translation: at }),
        CellType::Column => Some(Spawn { kind: SpawnKind::Column, translation: at }),
        CellType::Light => if level_type == LevelType::Covered {
            Some(
                Spawn { kind: SpawnKind::Light, translation: Translation { z: COLUMN_HIGHT, ..at } },
            )
        } else {
            None
        },
        CellType::Weapon(weapon) => Some(Spawn { kind: SpawnKind::Weapon(weapon), translation: at }),
        CellType::Enemy(enemy) => Some(Spawn { kind: SpawnKind::Enemy(enemy), translation: at }),
        CellType::Player => Some(Spawn { kind: SpawnKind::Player, translation: at }),
    }
}

/// The spawns of the first `n` cells of the grid in reading order.
pub open spec fn grid_spawns(grid: &Grid, anchor: Translation, level_type: LevelType, n: nat) -> Seq<
    Spawn,
>
    decreases n,
{
    if n == 0 {
        Seq::empty()
    } else {
        let before = grid_spawns(grid, anchor, level_type, (n - 1) as nat);
        let y = (n - 1) / GRID_SIZE as int;
        let x = (n - 1) % GRID_SIZE as int;
        match cell_spawn(grid.cell(y, x), y, x, anchor, level_type) {
            Some(spawn) => before.push(spawn),
            None => before,
        }
    }
}

/// Everything that a level anchored at `anchor` spawns: what its cells spawn, in reading
/// order, then the floor at the anchor, then under a roof the roof above it.
pub open spec fn level_spawns(grid: &Grid, anchor: Translation, level_type: LevelType) -> Seq<
    Spawn,
> {
    let cells = grid_spawns(grid, anchor, level_type, (GRID_SIZE * GRID_SIZE) as nat);
    let floored = cells.push(Spawn { kind: SpawnKind::Floor, translation: anchor });
    if level_type == LevelType::Covered {
        floored.push(
            Spawn {
                kind: SpawnKind::Roof,
                translation: spec_place(anchor, 0, 0, COLUMN_HIGHT + FLOOR_THICKNESS / 2),
            },
        )
    } else {
        floored
    }
}

/// Computes [`cell_spawn`].
pub fn spawn_cell(cell: CellType, y: usize, x: usize, anchor: Translation, level_type: LevelType)
    -> (spawn: Option<Spawn>)
    requires
        in_grid(y as int, x as int),
        -WORLD_LIMIT - LEVEL_SIZE <= anchor.x <= WORLD_LIMIT + LEVEL_SIZE,
        -WORLD_LIMIT - LEVEL_SIZE <= anchor.y <= WORLD_LIMIT + LEVEL_SIZE,
        -WORLD_LIMIT - LEVEL_SIZE <= anchor.z <= WORLD_LIMIT + LEVEL_SIZE,
    ensures
        spawn == cell_spawn(cell, y as int, x as int, anchor, level_type),
{
    let dx = -LEVEL_SIZE / 2 + COLUMN_SIZE * (x as i64) + COLUMN_SIZE / 2;
    let dy = LEVEL_SIZE / 2 - COLUMN_SIZE * (y as i64) - COLUMN_SIZE / 2;
    let at = place(anchor, dx, dy, COLUMN_HIGHT / 2);
    match cell {
        CellType::Empty => None,
        CellType::Door(door) => Some(Spawn { kind: SpawnKind::Door(door), translation: at }),
        CellType::Column => Some(Spawn { kind: SpawnKind::Column, translation: at }),
        CellType::Light => {
            if level_type == LevelType::Covered {
                Some(
                    Spawn {
                        kind: SpawnKind::Light,
                        translation: Translation { x: at.x, y: at.y, z: COLUMN_HIGHT },
                    },
                )
            } else {
                None
            }
        },
        CellType::Weapon(weapon) => Some(Spawn { kind: SpawnKind::Weapon(weapon), translation: at }),
        CellType::Enemy(enemy) => Some(Spawn { kind: SpawnKind::Enemy(enemy), translation: at }),
        CellType::Player => Some(Spawn { kind: SpawnKind::Player, translation: at }),
    }
}

/// Assembles a level from its grid.
///
/// The level is anchored one level size on from `level_translation`, through
/// `previous_door`. Returns the spawn list and the new anchor.
pub fn assemble(
    grid: &Grid,
    level_translation: Translation,
    previous_door: Option<Door>,
    level_type: LevelType,
) -> (out: (Vec<Spawn>, Translation))
    requires
        level_translation.in_world(),
    ensures
        out.1@ == spec_next_translation(level_translation, previous_door),
        out.0@ == level_spawns(grid, out.1, level_type),
{
    let anchor = next_translation(level_translation, previous_door);
    let mut spawns: Vec<Spawn> = Vec::new();
    let mut y: usize = 0;
    while y < GRID_SIZE
        invariant
            y <= GRID_SIZE,
            -WORLD_LIMIT - LEVEL_SIZE <= anchor.x <= WORLD_LIMIT + LEVEL_SIZE,
            -WORLD_LIMIT - LEVEL_SIZE <= anchor.y <= WORLD_LIMIT + LEVEL_SIZE,
            -WORLD_LIMIT - LEVEL_SIZE <= anchor.z <= WORLD_LIMIT + LEVEL_SIZE,
            spawns@ == grid_spawns(grid, anchor, level_type, (y * GRID_SIZE) as nat),
        decreases GRID_SIZE - y,
    {
        let mut x: usize = 0;
        while x < GRID_SIZE
            invariant
                y < GRID_SIZE,
                x <= GRID_SIZE,
                -WORLD_LIMIT - LEVEL_SIZE <= anchor.x <= WORLD_LIMIT + LEVEL_SIZE,
                -WORLD_LIMIT - LEVEL_SIZE <= anchor.y <= WORLD_LIMIT + LEVEL_SIZE,
                -WORLD_LIMIT - LEVEL_SIZE <= anchor.z <= WORLD_LIMIT + LEVEL_SIZE,
                spawns@ == grid_spawns(grid, anchor, level_type, (y * GRID_SIZE + x) as nat),
            decreases GRID_SIZE - x,
        {
            let ghost n = (y * GRID_SIZE + x + 1) as nat;
            assert((n - 1) / GRID_SIZE as int == y && (n - 1) % GRID_SIZE as int == x);
            match spawn_cell(grid.get(y, x), y, x, anchor, level_type) {
                Some(spawn) => {
                    spawns.push(spawn);
                },
                None => {},
            }
            x = x + 1;
        }
        y = y + 1;
    }
    spawns.push(Spawn { kind: SpawnKind::Floor, translation: anchor });
    if level_type == LevelType::Covered {
        let roof = place(anchor, 0, 0, COLUMN_HIGHT + FLOOR_THICKNESS / 2);
        spawns.push(Spawn { kind: SpawnKind::Roof, translation: roof });
    }
    (spawns, anchor)
}

/// `(y, x)` lies inside the border.
pub open spec fn inside_border(y: int, x: int) -> bool {
    1 <= y < GRID_SIZE - 1 && 1 <= x < GRID_SIZE - 1
}

/// `(y, x)` holds the player start that the tutorial goes by: the last `Player` cell inside
/// the border, in reading order.
pub open spec fn is_player_start(grid: &Grid, y: int, x: int) -> bool {
    &&& inside_border(y, x)
    &&& grid.cell(y, x) == CellType::Player
    &&& forall|r: int, c: int|
        inside_border(r, c) && #[trigger] grid.cell(r, c) == CellType::Player ==> r < y || (r == y
            && c <= x)
}

/// The tutorial area fits around a player start at `(y, x)`: the player moves three rows
/// down, and walls go up two columns to either side and two rows below the new place.
pub open spec fn tutorial_fits(y: int, x: int) -> bool {
    y + 5 < GRID_SIZE && 2 <= x < GRID_SIZE - 2
}

/// Finds the cell that [`is_player_start`] describes, or nothing when no cell inside the
/// border holds the player.
pub fn find_player(grid: &Grid) -> (found: Option<(usize, usize)>)
    ensures
        match found {
            Some(p) => is_player_start(grid, p.0 as int, p.1 as int),
            None => forall|y: int, x: int|
                inside_border(y, x) ==> #[trigger] grid.cell(y, x) != CellType::Player,
        },
{
    let mut found: Option<(usize, usize)> = None;
    let mut y: usize = 1;
    while y < GRID_SIZE - 1
        invariant
            1 <= y <= GRID_SIZE - 1,
            match found {
                Some(p) => inside_border(p.0 as int, p.1 as int) && p.0 < y && grid.cell(
                    p.0 as int,
                    p.1 as int,
                ) == CellType::Player && forall|r: int, c: int|
                    inside_border(r, c) && r < y && #[trigger] grid.cell(r, c) == CellType::Player
                        ==> r < p.0 || (r == p.0 && c <= p.1),
                None => forall|r: int, c: int|
                    inside_border(r, c) && r < y ==> #[trigger] grid.cell(r, c) != CellType::Player,
            },
        decreases GRID_SIZE - y,
    {
        let mut x: usize = 1;
        while x < GRID_SIZE - 1
            invariant
                1 <= y < GRID_SIZE - 1,
                1 <= x <= GRID_SIZE - 1,
                match found {
                    Some(p) => inside_border(p.0 as int, p.1 as int) && (p.0 < y || (p.0 == y && p.1
                        < x)) && grid.cell(p.0 as int, p.1 as int) == CellType::Player
                        && forall|r: int, c: int|
                        inside_border(r, c) && (r < y || (r == y && c < x)) && #[trigger] grid.cell(
                            r,
                            c,
                        ) == CellType::Player ==> r < p.0 || (r == p.0 && c <= p.1),
                    None => forall|r: int, c: int|
                        inside_border(r, c) && (r < y || (r == y && c < x)) ==> #[trigger] grid.cell(
                            r,
                            c,
                        ) != CellType::Player,
                },
            decreases GRID_SIZE - x,
        {
            if grid.get(y, x) == CellType::Player {
                found = Some((y, x));
            }
            x = x + 1;
        }
        y = y + 1;
    }
    found
}

/// The tag of cell `(y, x)` once the tutorial area is built around the player start
/// `(py, px)`, on a grid that held `before` there.
///
/// Walls fill the columns two to the left and to the right of the player and the row five
/// below the old start, border included. The old start becomes a `Light`, the cell below it
/// holds a pistol, and the player stands three rows below the old start. Everything else
/// inside the border is cleared; the rest of the border stays.
pub open spec fn tutorial_cell(before: CellType, py: int, px: int, y: int, x: int) -> CellType {
    if x == px - 2 || x == px + 2 || y == py + 5 {
        CellType::Column
    } else if y == py && x == px {
        CellType::Light
    } else if y == py + 1 && x == px {
        CellType::Weapon(WeaponType::Pistol)
    } else if y == py + 3 && x == px {
        CellType::Player
    } else if inside_border(y, x) && before != CellType::Player {
        CellType::Empty
    } else {
        before
    }
}

/// Turns the grid into a tutorial level: a walled teaching area around the player, with
/// a light, a pistol and nothing else inside the border.
///
/// Returns the player's new cell. Where the grid has no player start, or the area does not
/// fit around it, nothing is returned and the grid stays as it is.
pub fn apply_tutorial(grid: &mut Grid) -> (moved: Option<(usize, usize)>)
    ensures
        match moved {
            Some(p) => {
                &&& p.0 >= 3
                &&& is_player_start(old(grid), p.0 - 3, p.1 as int)
                &&& tutorial_fits(p.0 - 3, p.1 as int)
                &&& forall|y: int, x: int|
                    in_grid(y, x) ==> #[trigger] final(grid).cell(y, x) == tutorial_cell(
                        old(grid).cell(y, x),
                        p.0 - 3,
                        p.1 as int,
                        y,
                        x,
                    )
            },
            None => {
                &&& forall|y: int, x: int|
                    is_player_start(old(grid), y, x) ==> !tutorial_fits(y, x)
                &&& forall|y: int, x: int|
                    in_grid(y, x) ==> #[trigger] final(grid).cell(y, x) == old(grid).cell(y, x)
            },
        },
{
    let start = match find_player(grid) {
        Some(p) => p,
        None => {
            return None;
        },
    };
    let py = start.0;
    let px = start.1;
    if !(py + 5 < GRID_SIZE && 2 <= px && px < GRID_SIZE - 2) {
        proof {
            assert forall|y: int, x: int| is_player_start(old(grid), y, x) implies !tutorial_fits(
                y,
                x,
            ) by {
                assert(old(grid).cell(y, x) == CellType::Player);
                assert(old(grid).cell(py as int, px as int) == CellType::Player);
            }
        }
        return None;
    }
    let mut y: usize = 1;
    while y < GRID_SIZE - 1
        invariant
            1 <= y <= GRID_SIZE - 1,
            forall|r: int, c: int|
                in_grid(r, c) ==> #[trigger] grid.cell(r, c) == (if inside_border(r, c) && r < y
                    && old(grid).cell(r, c) != CellType::Player {
                    CellType::Empty
                } else {
                    old(grid).cell(r, c)
                }),
        decreases GRID_SIZE - y,
    {
        let mut x: usize = 1;
        while x < GRID_SIZE - 1
            invariant
                1 <= y < GRID_SIZE - 1,
                1 <= x <= GRID_SIZE - 1,
                forall|r: int, c: int|
                    in_grid(r, c) ==> #[trigger] grid.cell(r, c) == (if inside_border(r, c) && (r
                        < y || (r == y && c < x)) && old(grid).cell(r, c) != CellType::Player {
                        CellType::Empty
                    } else {
                        old(grid).cell(r, c)
                    }),
            decreases GRID_SIZE - x,
        {
            if grid.get(y, x) != CellType::Player {
                grid.set(y, x, CellType::Empty);
            }
            x = x + 1;
        }
        y = y + 1;
    }
    grid.set(py, px, CellType::Light);
    grid.set(py + 1, px, CellType::Weapon(WeaponType::Pistol));
    grid.set(py + 3, px, CellType::Player);
    let ghost cleared = *grid;
    let mut i: usize = 0;
    while i < GRID_SIZE
        invariant
            i <= GRID_SIZE,
            py + 5 < GRID_SIZE,
            2 <= px < GRID_SIZE - 2,
            forall|r: int, c: int|
                in_grid(r, c) ==> #[trigger] grid.cell(r, c) == (if ((c == px - 2 || c == px + 2)
                    && r < i) || (r == py + 5 && c < i) {
                    CellType::Column
                } else {
                    cleared.cell(r, c)
                }),
        decreases GRID_SIZE - i,
    {
        grid.set(i, px - 2, CellType::Column);
        grid.set(i, px + 2, CellType::Column);
        grid.set(py + 5, i, CellType::Column);
        i = i + 1;
    }
    Some((py + 3, px))
}

/// `after` is `before` with the tutorial area built around its player start.
pub open spec fn tutorial_built(before: &Grid, after: &Grid) -> bool {
    exists|py: int, px: int|
        {
            &&& is_player_start(before, py, px)
            &&& tutorial_fits(py, px)
            &&& forall|y: int, x: int|
                in_grid(y, x) ==> #[trigger] after.cell(y, x) == tutorial_cell(
                    before.cell(y, x),
                    py,
                    px,
                    y,
                    x,
                )
        }
}

/// A level ready to be spawned: its grid, its spawn list and its anchor.
pub struct LevelPlan {
    pub grid: Grid,
    pub spawns: Vec<Spawn>,
    pub translation: Translation,
}

/// `grid` is a level behind `previous_door` as generation leaves it: the boss level, or an
/// ordinary one.
pub open spec fn is_level(grid: &Grid, previous_door: Option<Door>, boss_level: bool) -> bool {
    if boss_level {
        previous_door is Some && is_boss_level(grid, previous_door->0)
    } else {
        is_generated(grid, previous_door)
    }
}

/// Generates and assembles the level behind `previous_door`, or the first level of a run
/// when there is no such door: the boss level with `boss_level`, else an ordinary one. With
/// `tutorial_level` the grid is turned into a tutorial level before it is assembled. Only
/// the first level of a run can be a tutorial level: only there does the player start in
/// the grid.
pub fn spawn_level(
    level_translation: Translation,
    previous_door: Option<Door>,
    level_type: LevelType,
    tutorial_level: bool,
    boss_level: bool,
) -> (plan: LevelPlan)
    requires
        level_translation.in_world(),
        previous_door is Some ==> previous_door->0.wf(),
        boss_level ==> previous_door is Some,
        tutorial_level ==> previous_door is None,
    ensures
        plan.translation@ == spec_next_translation(level_translation, previous_door),
        plan.spawns@ == level_spawns(&plan.grid, plan.translation, level_type),
        !tutorial_level ==> is_level(&plan.grid, previous_door, boss_level),
        tutorial_level ==> exists|generated: Grid|
            is_generated(&generated, None) && tutorial_built(&generated, &plan.grid),
{
    let mut grid = if boss_level {
        generate_boss_level(previous_door)
    } else {
        generate_normal_level(previous_door)
    };
    let ghost generated = grid;
    if tutorial_level {
        let moved = apply_tutorial(&mut grid);
        proof {
            lemma_first_level(&generated);
            lemma_door_on(&generated, None, DoorType::Top);
            let px = door_on(&generated, None, DoorType::Top).grid_pos as int;
            assert(is_player_start(&generated, 1, px));
            assert(tutorial_fits(1, px));
            let p = moved->0;
            assert(is_player_start(&generated, p.0 - 3, p.1 as int));
            assert(tutorial_built(&generated, &grid));
        }
    }
    let (spawns, translation) = assemble(&grid, level_translation, previous_door, level_type);
    let plan = LevelPlan { grid, spawns, translation };
    proof {
        if tutorial_level {
            assert(is_generated(&generated, None) && tutorial_built(&generated, &plan.grid));
        }
    }
    plan
}

} // verus!
