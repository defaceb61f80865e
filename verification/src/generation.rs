//! The grid generator: border, doors, random-walk walls, pocket removal,
//! weapons, enemies and lights.

use vstd::prelude::*;
use rand::rngs::ThreadRng;
use crate::capacity::{
    enemy_cells, lemma_nothing_placed, lemma_placed, lemma_spare_after_write, lemma_spare_full,
    lemma_spare_is_free, lemma_spare_same, rim_cell, rim_len, spare, weapon_cells,
};
use crate::config::{
    GRID_SIZE, LEVEL_ENEMIES, LEVEL_LIGHTS_COVERAGE_PERCENT, LEVEL_SMALL_ENEMIES_PERCENT,
    LEVEL_WEAPON_SHOTGUN_SPAWN_THRESHOLD, LEVEL_WEAPON_SPAWNS, LIGHT_STRIDE, NUM_STRIPS,
    PLACEMENT_ATTEMPTS, STRIP_LENGTH,
};
use crate::door::{Door, DoorState, DoorType};
use crate::grid::{in_grid, interior, on_border, on_ring, CellType, EnemyType, Grid, WeaponType};
use crate::random::{random_index, random_ratio, thread_rng};

verus! {

/// The border cell that holds the door of `side` at index `pos`.
pub open spec fn door_cell(side: DoorType, pos: int) -> (int, int) {
    match side {
        DoorType::Top => (0, pos),
        DoorType::Bottom => (GRID_SIZE - 1, pos),
        DoorType::Left => (pos, 0),
        DoorType::Right => (pos, GRID_SIZE - 1),
    }
}

/// The door that a level has on `side`, when the player came through `previous_door` and
/// `drawn` is the position drawn for that side.
///
/// The side opposite the previous door mirrors it: same position, `TemporaryOpen`. Every
/// other door keeps its drawn position and is `Locked`, but for the top door of a first
/// level, which is `Unlocked`.
pub open spec fn planned_door(previous_door: Option<Door>, side: DoorType, drawn: usize) -> Door {
    match previous_door {
        Some(d) => if d.door_type.spec_opposite() == side {
            Door { door_type: side, door_state: DoorState::TemporaryOpen, grid_pos: d.grid_pos }
        } else {
            Door { door_type: side, door_state: DoorState::Locked, grid_pos: drawn }
        },
        None => Door {
            door_type: side,
            door_state: if side == DoorType::Top {
                DoorState::Unlocked
            } else {
                DoorState::Locked
            },
            grid_pos: drawn,
        },
    }
}

/// Computes [`planned_door`].
pub fn plan_door(previous_door: Option<Door>, side: DoorType, drawn: usize) -> (door: Door)
    ensures
        door == planned_door(previous_door, side, drawn),
{
    match previous_door {
        Some(d) => {
            if d.door_type.opposite() == side {
                Door { door_type: side, door_state: DoorState::TemporaryOpen, grid_pos: d.grid_pos }
            } else {
                Door { door_type: side, door_state: DoorState::Locked, grid_pos: drawn }
            }
        },
        None => {
            let door_state = if side == DoorType::Top {
                DoorState::Unlocked
            } else {
                DoorState::Locked
            };
            Door { door_type: side, door_state, grid_pos: drawn }
        },
    }
}

/// Turns every border cell into a `Column` and leaves the rest of the grid alone.
pub fn fill_border(grid: &mut Grid)
    ensures
        forall|y: int, x: int|
            in_grid(y, x) ==> #[trigger] final(grid).cell(y, x) == (if on_border(y, x) {
                CellType::Column
            } else {
                old(grid).cell(y, x)
            }),
{
    let mut i: usize = 0;
    while i < GRID_SIZE
        invariant
            i <= GRID_SIZE,
            forall|y: int, x: int|
                in_grid(y, x) ==> #[trigger] grid.cell(y, x) == (if on_border(y, x) && (((y == 0 || y
                    == GRID_SIZE - 1) && x < i) || ((x == 0 || x == GRID_SIZE - 1) && y < i)) {
                    CellType::Column
                } else {
                    old(grid).cell(y, x)
                }),
        decreases GRID_SIZE - i,
    {
        grid.set(0, i, CellType::Column);
        grid.set(GRID_SIZE - 1, i, CellType::Column);
        grid.set(i, 0, CellType::Column);
        grid.set(i, GRID_SIZE - 1, CellType::Column);
        i = i + 1;
    }
}

/// Writes the four doors of a level onto the border, and on a first level the player start
/// one row inside the top door.
///
/// `top`, `bottom`, `left` and `right` are the positions drawn for the four sides; the side
/// that mirrors `previous_door` takes its position from that door instead.
pub fn place_doors(
    grid: &mut Grid,
    previous_door: Option<Door>,
    top: usize,
    bottom: usize,
    left: usize,
    right: usize,
)
    requires
        2 <= top < GRID_SIZE - 2,
        2 <= bottom < GRID_SIZE - 2,
        2 <= left < GRID_SIZE - 2,
        2 <= right < GRID_SIZE - 2,
        previous_door is Some ==> previous_door->0.wf(),
    ensures
        forall|y: int, x: int|
            in_grid(y, x) ==> #[trigger] final(grid).cell(y, x) == cell_after_doors(
                old(grid).cell(y, x),
                previous_door,
                top,
                bottom,
                left,
                right,
                y,
                x,
            ),
{
    let top_door = plan_door(previous_door, DoorType::Top, top);
    let bottom_door = plan_door(previous_door, DoorType::Bottom, bottom);
    let left_door = plan_door(previous_door, DoorType::Left, left);
    let right_door = plan_door(previous_door, DoorType::Right, right);
    if previous_door.is_none() {
        grid.set(1, top_door.grid_pos, CellType::Player);
    }
    grid.set(0, top_door.grid_pos, CellType::Door(top_door));
    grid.set(GRID_SIZE - 1, bottom_door.grid_pos, CellType::Door(bottom_door));
    grid.set(left_door.grid_pos, 0, CellType::Door(left_door));
    grid.set(right_door.grid_pos, GRID_SIZE - 1, CellType::Door(right_door));
}

/// The tag of cell `(y, x)` once [`place_doors`] has run on a grid that held `before` there.
pub open spec fn cell_after_doors(
    before: CellType,
    previous_door: Option<Door>,
    top: usize,
    bottom: usize,
    left: usize,
    right: usize,
    y: int,
    x: int,
) -> CellType {
    let top_door = planned_door(previous_door, DoorType::Top, top);
    let bottom_door = planned_door(previous_door, DoorType::Bottom, bottom);
    let left_door = planned_door(previous_door, DoorType::Left, left);
    let right_door = planned_door(previous_door, DoorType::Right, right);
    if (y, x) == door_cell(DoorType::Top, top_door.grid_pos as int) {
        CellType::Door(top_door)
    } else if (y, x) == door_cell(DoorType::Bottom, bottom_door.grid_pos as int) {
        CellType::Door(bottom_door)
    } else if (y, x) == door_cell(DoorType::Left, left_door.grid_pos as int) {
        CellType::Door(left_door)
    } else if (y, x) == door_cell(DoorType::Right, right_door.grid_pos as int) {
        CellType::Door(right_door)
    } else if previous_door is None && y == 1 && x == top {
        CellType::Player
    } else {
        before
    }
}

/// `(y, x)` as a one-element list of walk targets when it lies in the interior, else no
/// target at all.
pub open spec fn step_if_interior(y: int, x: int) -> Seq<(usize, usize)> {
    if interior(y, x) {
        seq![(y as usize, x as usize)]
    } else {
        Seq::empty()
    }
}

/// The cells that a wall strip standing on `(y, x)` may step to: the left, right, upper and
/// lower neighbour, in that order, as far as they lie in the interior.
pub open spec fn spec_valid_steps(y: int, x: int) -> Seq<(usize, usize)> {
    step_if_interior(y, x - 1) + step_if_interior(y, x + 1) + step_if_interior(y - 1, x)
        + step_if_interior(y + 1, x)
}

/// Computes [`spec_valid_steps`].
pub fn valid_steps(y: usize, x: usize) -> (steps: Vec<(usize, usize)>)
    ensures
        steps@ == spec_valid_steps(y as int, x as int),
{
    let mut steps: Vec<(usize, usize)> = Vec::new();
    let row_inside = 2 <= y && y < GRID_SIZE - 2;
    let column_inside = 2 <= x && x < GRID_SIZE - 2;
    if row_inside && 3 <= x && x < GRID_SIZE - 1 {
        steps.push((y, x - 1));
    }
    assert(steps@ == step_if_interior(y as int, x - 1));
    if row_inside && 1 <= x && x < GRID_SIZE - 3 {
        steps.push((y, x + 1));
    }
    assert(steps@ == step_if_interior(y as int, x - 1) + step_if_interior(y as int, x + 1));
    if column_inside && 3 <= y && y < GRID_SIZE - 1 {
        steps.push((y - 1, x));
    }
    assert(steps@ == step_if_interior(y as int, x - 1) + step_if_interior(y as int, x + 1)
        + step_if_interior(y - 1, x as int));
    if column_inside && 1 <= y && y < GRID_SIZE - 3 {
        steps.push((y + 1, x));
    }
    assert(steps@ == spec_valid_steps(y as int, x as int));
    steps
}

/// Every cell in the interior has a neighbour in the interior, and every walk target lies
/// in the interior.
pub proof fn lemma_valid_steps(y: int, x: int)
    ensures
        interior(y, x) ==> spec_valid_steps(y, x).len() >= 2,
        forall|k: int|
            0 <= k < spec_valid_steps(y, x).len() ==> interior(
                (#[trigger] spec_valid_steps(y, x)[k]).0 as int,
                spec_valid_steps(y, x)[k].1 as int,
            ),
{
}

/// Moves a wall strip one step on: from `(y, x)` to the walk target number `pick`, which
/// becomes a `Column`. Returns the cell stepped to.
pub fn walk_step(grid: &mut Grid, y: usize, x: usize, pick: usize) -> (next: (usize, usize))
    requires
        pick < spec_valid_steps(y as int, x as int).len(),
    ensures
        next == spec_valid_steps(y as int, x as int)[pick as int],
        interior(next.0 as int, next.1 as int),
        final(grid).cell(next.0 as int, next.1 as int) == CellType::Column,
        forall|r: int, c: int|
            in_grid(r, c) && !(r == next.0 && c == next.1) ==> #[trigger] final(grid).cell(r, c) == old(
                grid,
            ).cell(r, c),
{
    let steps = valid_steps(y, x);
    let next = steps[pick];
    proof {
        lemma_valid_steps(y as int, x as int);
    }
    grid.set(next.0, next.1, CellType::Column);
    next
}

/// A grid that differs from `before` only by interior cells that have become `Column`.
pub open spec fn walls_added(before: &Grid, after: &Grid) -> bool {
    forall|y: int, x: int|
        in_grid(y, x) ==> #[trigger] after.cell(y, x) == before.cell(y, x) || (interior(y, x)
            && after.cell(y, x) == CellType::Column)
}

/// A wall strip may step from `from` to `to`.
pub open spec fn is_step(from: (usize, usize), to: (usize, usize)) -> bool {
    spec_valid_steps(from.0 as int, from.1 as int).contains(to)
}

/// `cells` is the course of a wall strip: a first cell in the interior, and `STRIP_LENGTH`
/// steps from there. An interior cell always has an interior neighbour, so that no strip
/// ends early.
pub open spec fn is_strip(cells: Seq<(usize, usize)>) -> bool {
    &&& cells.len() == STRIP_LENGTH + 1
    &&& interior(cells[0].0 as int, cells[0].1 as int)
    &&& forall|i: int| 0 <= i < cells.len() - 1 ==> is_step(#[trigger] cells[i], cells[i + 1])
}

/// `cell` lies on one of `strips`.
pub open spec fn on_strips(strips: Seq<Seq<(usize, usize)>>, cell: (usize, usize)) -> bool {
    exists|s: int| 0 <= s < strips.len() && (#[trigger] strips[s]).contains(cell)
}

/// `after` is `before` with a `Column` on every cell of `strips`.
pub open spec fn strips_built(before: &Grid, after: &Grid, strips: Seq<Seq<(usize, usize)>>)
    -> bool {
    forall|y: int, x: int|
        in_grid(y, x) ==> #[trigger] after.cell(y, x) == (if on_strips(
            strips,
            (y as usize, x as usize),
        ) {
            CellType::Column
        } else {
            before.cell(y, x)
        })
}

/// `after` is `before` with one wall strip dropped on it.
#[verifier::opaque]
pub open spec fn strip_dropped(before: &Grid, after: &Grid) -> bool {
    exists|strip: Seq<(usize, usize)>| is_strip(strip) && strips_built(before, after, seq![strip])
}

/// `after` is `before` with `NUM_STRIPS` wall strips dropped on it.
#[verifier::opaque]
pub open spec fn walls_filled(before: &Grid, after: &Grid) -> bool {
    exists|strips: Seq<Seq<(usize, usize)>>|
        {
            &&& strips.len() == NUM_STRIPS
            &&& forall|s: int| 0 <= s < strips.len() ==> is_strip(#[trigger] strips[s])
            &&& strips_built(before, after, strips)
        }
}

/// Drops one wall strip: a `Column` on a random interior cell, then `STRIP_LENGTH` random
/// steps to neighbouring interior cells, each of which becomes a `Column` too. A strip
/// takes up `STRIP_LENGTH + 1` free cells at most.
pub fn fill_strip(grid: &mut Grid, rng: &mut ThreadRng)
    ensures
        strip_dropped(old(grid), final(grid)),
        walls_added(old(grid), final(grid)),
        spare(final(grid)) + STRIP_LENGTH + 1 >= spare(old(grid)),
{
    let start_x = random_index(rng, 2, GRID_SIZE - 2);
    let start_y = random_index(rng, 2, GRID_SIZE - 2);
    grid.set(start_y, start_x, CellType::Column);
    let ghost mut walk: Seq<(usize, usize)> = seq![(start_y, start_x)];
    proof {
        lemma_spare_after_write(old(grid), grid, start_y as int, start_x as int);
        assert forall|y: int, x: int| in_grid(y, x) implies (walk.contains(
            (y as usize, x as usize),
        ) <==> (y == start_y && x == start_x)) by {
            if y == start_y && x == start_x {
                assert(walk[0] == (y as usize, x as usize));
            }
        }
    }
    let mut current: (usize, usize) = (start_y, start_x);
    let mut step: usize = 0;
    while step < STRIP_LENGTH
        invariant
            step <= STRIP_LENGTH,
            interior(current.0 as int, current.1 as int),
            walls_added(old(grid), grid),
            spare(grid) + step + 1 >= spare(old(grid)),
            walk.len() == step + 1,
            walk[step as int] == current,
            interior(walk[0].0 as int, walk[0].1 as int),
            forall|i: int| 0 <= i < walk.len() - 1 ==> is_step(#[trigger] walk[i], walk[i + 1]),
            forall|y: int, x: int|
                in_grid(y, x) ==> #[trigger] grid.cell(y, x) == (if walk.contains(
                    (y as usize, x as usize),
                ) {
                    CellType::Column
                } else {
                    old(grid).cell(y, x)
                }),
        ensures
            step == STRIP_LENGTH,
        decreases STRIP_LENGTH - step,
    {
        let targets = valid_steps(current.0, current.1);
        if targets.len() == 0 {
            proof {
                lemma_valid_steps(current.0 as int, current.1 as int);
            }
            break ;
        }
        let pick = random_index(rng, 0, targets.len());
        let ghost before = *grid;
        let ghost so_far = walk;
        current = walk_step(grid, current.0, current.1, pick);
        proof {
            walk = so_far.push(current);
            lemma_spare_after_write(&before, grid, current.0 as int, current.1 as int);
            assert forall|y: int, x: int| in_grid(y, x) implies #[trigger] grid.cell(y, x) == old(
                grid,
            ).cell(y, x) || (interior(y, x) && grid.cell(y, x) == CellType::Column) by {
                assert(before.cell(y, x) == old(grid).cell(y, x) || (interior(y, x)
                    && before.cell(y, x) == CellType::Column));
            }
            assert forall|i: int| 0 <= i < walk.len() - 1 implies is_step(
                #[trigger] walk[i],
                walk[i + 1],
            ) by {
                if i < so_far.len() - 1 {
                    assert(is_step(so_far[i], so_far[i + 1]));
                }
            }
            assert forall|y: int, x: int| in_grid(y, x) implies #[trigger] grid.cell(y, x) == (
            if walk.contains((y as usize, x as usize)) {
                CellType::Column
            } else {
                old(grid).cell(y, x)
            }) by {
                let c = (y as usize, x as usize);
                if so_far.contains(c) {
                    let i = choose|i: int| 0 <= i < so_far.len() && so_far[i] == c;
                    assert(walk[i] == c);
                }
                if c == current {
                    assert(walk[walk.len() - 1] == c);
                }
                if walk.contains(c) && c != current {
                    let i = choose|i: int| 0 <= i < walk.len() && walk[i] == c;
                    assert(so_far[i] == c);
                }
                assert(before.cell(y, x) == (if so_far.contains(c) {
                    CellType::Column
                } else {
                    old(grid).cell(y, x)
                }));
            }
        }
        step = step + 1;
    }
    proof {
        assert(is_strip(walk));
        let strips = seq![walk];
        assert forall|y: int, x: int| in_grid(y, x) implies (on_strips(
            strips,
            (y as usize, x as usize),
        ) <==> walk.contains((y as usize, x as usize))) by {
            if walk.contains((y as usize, x as usize)) {
                assert(strips[0].contains((y as usize, x as usize)));
            }
        }
        assert(strips_built(old(grid), grid, seq![walk]));
        reveal(strip_dropped);
    }
}

/// The random-walk wall fill: `NUM_STRIPS` strips, one after the other.
pub fn fill_walls(grid: &mut Grid, rng: &mut ThreadRng)
    ensures
        walls_filled(old(grid), final(grid)),
        walls_added(old(grid), final(grid)),
        spare(final(grid)) + NUM_STRIPS * (STRIP_LENGTH + 1) >= spare(old(grid)),
{
    let ghost mut strips: Seq<Seq<(usize, usize)>> = Seq::empty();
    let mut strip: usize = 0;
    while strip < NUM_STRIPS
        invariant
            strip <= NUM_STRIPS,
            walls_added(old(grid), grid),
            spare(grid) + strip * (STRIP_LENGTH + 1) >= spare(old(grid)),
            strips.len() == strip,
            forall|s: int| 0 <= s < strips.len() ==> is_strip(#[trigger] strips[s]),
            strips_built(old(grid), grid, strips),
        decreases NUM_STRIPS - strip,
    {
        let ghost before = *grid;
        let ghost so_far = strips;
        fill_strip(grid, rng);
        proof {
            reveal(strip_dropped);
            let new_strip = choose|new_strip: Seq<(usize, usize)>|
                is_strip(new_strip) && strips_built(&before, grid, seq![new_strip]);
            strips = so_far.push(new_strip);
            assert((strip + 1) * (STRIP_LENGTH + 1) == strip * (STRIP_LENGTH + 1) + STRIP_LENGTH
                + 1) by (nonlinear_arith);
            assert forall|y: int, x: int| in_grid(y, x) implies #[trigger] grid.cell(y, x) == old(
                grid,
            ).cell(y, x) || (interior(y, x) && grid.cell(y, x) == CellType::Column) by {
                assert(before.cell(y, x) == old(grid).cell(y, x) || (interior(y, x)
                    && before.cell(y, x) == CellType::Column));
            }
            assert forall|s: int| 0 <= s < strips.len() implies is_strip(#[trigger] strips[s]) by {
                if s < so_far.len() {
                    assert(strips[s] == so_far[s]);
                }
            }
            assert forall|y: int, x: int| in_grid(y, x) implies #[trigger] grid.cell(y, x) == (
            if on_strips(strips, (y as usize, x as usize)) {
                CellType::Column
            } else {
                old(grid).cell(y, x)
            }) by {
                let c = (y as usize, x as usize);
                let single = seq![new_strip];
                if on_strips(so_far, c) {
                    let s = choose|s: int| 0 <= s < so_far.len() && (#[trigger] so_far[s]).contains(c);
                    assert(strips[s].contains(c));
                }
                if on_strips(single, c) {
                    let s = choose|s: int| 0 <= s < single.len() && (#[trigger] single[s]).contains(c);
                    assert(strips[strips.len() - 1].contains(c));
                }
                if on_strips(strips, c) {
                    let s = choose|s: int| 0 <= s < strips.len() && (#[trigger] strips[s]).contains(c);
                    if s < so_far.len() {
                        assert(so_far[s].contains(c));
                    } else {
                        assert(single[0].contains(c));
                    }
                }
                assert(before.cell(y, x) == (if on_strips(so_far, c) {
                    CellType::Column
                } else {
                    old(grid).cell(y, x)
                }));
            }
        }
        strip = strip + 1;
    }
    proof {
        assert(strips.len() == NUM_STRIPS && (forall|s: int|
            0 <= s < strips.len() ==> is_strip(#[trigger] strips[s])) && strips_built(
            old(grid),
            grid,
            strips,
        ));
        reveal(walls_filled);
    }
}

/// `(y, x)` is a pocket: an empty interior cell walled in by a `Column` on each of its four
/// sides.
pub open spec fn is_pocket(grid: &Grid, y: int, x: int) -> bool {
    &&& interior(y, x)
    &&& grid.cell(y, x) == CellType::Empty
    &&& grid.cell(y - 1, x) == CellType::Column
    &&& grid.cell(y + 1, x) == CellType::Column
    &&& grid.cell(y, x + 1) == CellType::Column
    &&& grid.cell(y, x - 1) == CellType::Column
}

/// Walls up every pocket of the grid and changes nothing else.
pub fn remove_pockets(grid: &mut Grid)
    ensures
        forall|y: int, x: int|
            in_grid(y, x) ==> #[trigger] final(grid).cell(y, x) == (if is_pocket(old(grid), y, x) {
                CellType::Column
            } else {
                old(grid).cell(y, x)
            }),
{
    let mut y: usize = 2;
    while y < GRID_SIZE - 2
        invariant
            2 <= y <= GRID_SIZE - 2,
            forall|r: int, c: int|
                in_grid(r, c) ==> #[trigger] grid.cell(r, c) == (if is_pocket(old(grid), r, c) && r
                    < y {
                    CellType::Column
                } else {
                    old(grid).cell(r, c)
                }),
        decreases GRID_SIZE - y,
    {
        let mut x: usize = 2;
        while x < GRID_SIZE - 2
            invariant
                2 <= y < GRID_SIZE - 2,
                2 <= x <= GRID_SIZE - 2,
                forall|r: int, c: int|
                    in_grid(r, c) ==> #[trigger] grid.cell(r, c) == (if is_pocket(old(grid), r, c)
                        && (r < y || (r == y && c < x)) {
                        CellType::Column
                    } else {
                        old(grid).cell(r, c)
                    }),
            decreases GRID_SIZE - x,
        {
            let walled_in = grid.get(y, x) == CellType::Empty && grid.get(y - 1, x)
                == CellType::Column && grid.get(y + 1, x) == CellType::Column && grid.get(y, x + 1)
                == CellType::Column && grid.get(y, x - 1) == CellType::Column;
            proof {
                assert(in_grid(y - 1, x as int) && in_grid(y + 1, x as int) && in_grid(
                    y as int,
                    x + 1,
                ) && in_grid(y as int, x - 1));
                assert(walled_in == is_pocket(old(grid), y as int, x as int));
            }
            if walled_in {
                grid.set(y, x, CellType::Column);
            }
            x = x + 1;
        }
        y = y + 1;
    }
}

/// `(y, x)` is free: an interior cell that is still `Empty`.
pub open spec fn is_free(grid: &Grid, y: int, x: int) -> bool {
    interior(y, x) && grid.cell(y, x) == CellType::Empty
}

/// The first free cell in reading order, row by row from the top, or nothing when the grid
/// has no free cell.
pub fn first_free_cell(grid: &Grid) -> (found: Option<(usize, usize)>)
    ensures
        match found {
            Some(p) => is_free(grid, p.0 as int, p.1 as int) && forall|y: int, x: int|
                #[trigger] is_free(grid, y, x) ==> p.0 < y || (p.0 == y && p.1 <= x),
            None => forall|y: int, x: int| !#[trigger] is_free(grid, y, x),
        },
{
    let mut y: usize = 2;
    while y < GRID_SIZE - 2
        invariant
            2 <= y <= GRID_SIZE - 2,
            forall|r: int, c: int| r < y ==> !#[trigger] is_free(grid, r, c),
        decreases GRID_SIZE - y,
    {
        let mut x: usize = 2;
        while x < GRID_SIZE - 2
            invariant
                2 <= y < GRID_SIZE - 2,
                2 <= x <= GRID_SIZE - 2,
                forall|r: int, c: int|
                    r < y || (r == y && c < x) ==> !#[trigger] is_free(grid, r, c),
            decreases GRID_SIZE - x,
        {
            if grid.get(y, x) == CellType::Empty {
                return Some((y, x));
            }
            x = x + 1;
        }
        y = y + 1;
    }
    None
}

/// Picks a free cell: the first free one among up to `PLACEMENT_ATTEMPTS` random interior
/// cells, and past those the first free cell in reading order. Returns nothing exactly when
/// the grid has no free cell.
pub fn pick_free_cell(grid: &Grid, rng: &mut ThreadRng) -> (found: Option<(usize, usize)>)
    ensures
        match found {
            Some(p) => is_free(grid, p.0 as int, p.1 as int),
            None => forall|y: int, x: int| !#[trigger] is_free(grid, y, x),
        },
{
    let mut attempt: usize = 0;
    while attempt < PLACEMENT_ATTEMPTS
        invariant
            attempt <= PLACEMENT_ATTEMPTS,
        decreases PLACEMENT_ATTEMPTS - attempt,
    {
        let x = random_index(rng, 2, GRID_SIZE - 2);
        let y = random_index(rng, 2, GRID_SIZE - 2);
        if grid.get(y, x) == CellType::Empty {
            return Some((y, x));
        }
        attempt = attempt + 1;
    }
    first_free_cell(grid)
}

/// The weapon that a roll in `0..100` stands for: a shotgun below
/// `LEVEL_WEAPON_SHOTGUN_SPAWN_THRESHOLD`, a minigun from there on.
pub open spec fn spec_weapon_for_roll(roll: usize) -> WeaponType {
    if roll < LEVEL_WEAPON_SHOTGUN_SPAWN_THRESHOLD {
        WeaponType::Shotgun
    } else {
        WeaponType::Minigun
    }
}

/// Computes [`spec_weapon_for_roll`].
pub fn weapon_for_roll(roll: usize) -> (weapon: WeaponType)
    ensures
        weapon == spec_weapon_for_roll(roll),
{
    if roll < LEVEL_WEAPON_SHOTGUN_SPAWN_THRESHOLD {
        WeaponType::Shotgun
    } else {
        WeaponType::Minigun
    }
}

/// The enemy that a draw stands for: a small one on `true`, a mid-sized one on `false`.
pub fn enemy_for_draw(small: bool) -> (enemy: EnemyType)
    ensures
        enemy == (if small {
            EnemyType::Small
        } else {
            EnemyType::Mid
        }),
{
    if small {
        EnemyType::Small
    } else {
        EnemyType::Mid
    }
}

/// A weapon of a kind that generation places.
pub open spec fn is_level_weapon(cell: CellType) -> bool {
    cell == CellType::Weapon(WeaponType::Shotgun) || cell == CellType::Weapon(WeaponType::Minigun)
}

/// An enemy of a kind that generation places.
pub open spec fn is_level_enemy(cell: CellType) -> bool {
    cell == CellType::Enemy(EnemyType::Small) || cell == CellType::Enemy(EnemyType::Mid)
}

/// `(y, x)` lies on the light lattice: every `LIGHT_STRIDE`-th row and column of the
/// interior, counted from its first.
pub open spec fn on_light_lattice(y: int, x: int) -> bool {
    interior(y, x) && (y - 2) % (LIGHT_STRIDE as int) == 0 && (x - 2) % (LIGHT_STRIDE as int) == 0
}

/// A grid that differs from `before` only by free cells that have come to hold a weapon.
pub open spec fn weapons_added(before: &Grid, after: &Grid) -> bool {
    forall|y: int, x: int|
        in_grid(y, x) ==> #[trigger] after.cell(y, x) == before.cell(y, x) || (is_free(before, y, x)
            && is_level_weapon(after.cell(y, x)))
}

/// A grid that differs from `before` only by free cells that have come to hold an enemy.
pub open spec fn enemies_added(before: &Grid, after: &Grid) -> bool {
    forall|y: int, x: int|
        in_grid(y, x) ==> #[trigger] after.cell(y, x) == before.cell(y, x) || (is_free(before, y, x)
            && is_level_enemy(after.cell(y, x)))
}

/// A grid that differs from `before` only by free cells of the light lattice that have come
/// to hold a light.
pub open spec fn lights_added(before: &Grid, after: &Grid) -> bool {
    forall|y: int, x: int|
        in_grid(y, x) ==> #[trigger] after.cell(y, x) == before.cell(y, x) || (is_free(before, y, x)
            && on_light_lattice(y, x) && after.cell(y, x) == CellType::Light)
}

/// Puts one weapon on a free cell picked at random; its kind follows a roll in `0..100`.
/// Returns the cell that took it, or nothing when the grid has no free cell; no other cell
/// changes.
pub fn place_weapon(grid: &mut Grid, rng: &mut ThreadRng) -> (placed: Option<(usize, usize)>)
    ensures
        match placed {
            Some(p) => is_free(old(grid), p.0 as int, p.1 as int) && is_level_weapon(
                final(grid).cell(p.0 as int, p.1 as int),
            ),
            None => forall|y: int, x: int| !#[trigger] is_free(old(grid), y, x),
        },
        forall|y: int, x: int|
            in_grid(y, x) && placed != Some((y as usize, x as usize)) ==> #[trigger] final(grid).cell(
                y,
                x,
            ) == old(grid).cell(y, x),
{
    let found = pick_free_cell(grid, rng);
    match found {
        Some(p) => {
            let roll = random_index(rng, 0, 100);
            grid.set(p.0, p.1, CellType::Weapon(weapon_for_roll(roll)));
        },
        None => {},
    }
    found
}

/// Puts one enemy on a free cell picked at random; it is a small one with a chance of
/// `LEVEL_SMALL_ENEMIES_PERCENT` in a hundred. Returns the cell that took it, or nothing
/// when the grid has no free cell; no other cell changes.
pub fn place_enemy(grid: &mut Grid, rng: &mut ThreadRng) -> (placed: Option<(usize, usize)>)
    ensures
        match placed {
            Some(p) => is_free(old(grid), p.0 as int, p.1 as int) && is_level_enemy(
                final(grid).cell(p.0 as int, p.1 as int),
            ),
            None => forall|y: int, x: int| !#[trigger] is_free(old(grid), y, x),
        },
        forall|y: int, x: int|
            in_grid(y, x) && placed != Some((y as usize, x as usize)) ==> #[trigger] final(grid).cell(
                y,
                x,
            ) == old(grid).cell(y, x),
{
    let found = pick_free_cell(grid, rng);
    match found {
        Some(p) => {
            let small = random_ratio(rng, LEVEL_SMALL_ENEMIES_PERCENT, 100);
            grid.set(p.0, p.1, CellType::Enemy(enemy_for_draw(small)));
        },
        None => {},
    }
    found
}

/// Walks the light lattice and turns each free cell on it into a `Light` with a chance of
/// `LEVEL_LIGHTS_COVERAGE_PERCENT` in a hundred.
pub fn place_lights(grid: &mut Grid, rng: &mut ThreadRng)
    ensures
        lights_added(old(grid), final(grid)),
{
    let mut y: usize = 2;
    while y < GRID_SIZE - 2
        invariant
            2 <= y,
            (y - 2) % (LIGHT_STRIDE as int) == 0,
            lights_added(old(grid), grid),
        decreases GRID_SIZE - y,
    {
        let mut x: usize = 2;
        while x < GRID_SIZE - 2
            invariant
                2 <= y < GRID_SIZE - 2,
                (y - 2) % (LIGHT_STRIDE as int) == 0,
                2 <= x,
                (x - 2) % (LIGHT_STRIDE as int) == 0,
                lights_added(old(grid), grid),
            decreases GRID_SIZE - x,
        {
            if grid.get(y, x) == CellType::Empty {
                let lit = random_ratio(rng, LEVEL_LIGHTS_COVERAGE_PERCENT, 100);
                let ghost before = *grid;
                place_light(grid, y, x, lit);
                assert(lights_added(old(grid), grid)) by {
                    assert forall|r: int, c: int| in_grid(r, c) implies #[trigger] grid.cell(r, c)
                        == old(grid).cell(r, c) || (is_free(old(grid), r, c) && on_light_lattice(
                        r,
                        c,
                    ) && grid.cell(r, c) == CellType::Light) by {
                        assert(before.cell(r, c) == old(grid).cell(r, c) || (is_free(
                            old(grid),
                            r,
                            c,
                        ) && on_light_lattice(r, c) && before.cell(r, c) == CellType::Light));
                    }
                }
            }
            x = x + LIGHT_STRIDE;
        }
        y = y + LIGHT_STRIDE;
    }
}

/// The tag of a cell once its light is decided: a cell that is `Empty` becomes a `Light`
/// when `lit`; any other cell, and every cell when not `lit`, stays as it is.
pub open spec fn spec_lit(cell: CellType, lit: bool) -> CellType {
    if lit && cell == CellType::Empty {
        CellType::Light
    } else {
        cell
    }
}

/// Decides on the light of cell `(y, x)` by the draw `lit`, and leaves every other cell as
/// it was.
pub fn place_light(grid: &mut Grid, y: usize, x: usize, lit: bool)
    requires
        in_grid(y as int, x as int),
    ensures
        final(grid).cell(y as int, x as int) == spec_lit(old(grid).cell(y as int, x as int), lit),
        forall|r: int, c: int|
            in_grid(r, c) && !(r == y && c == x) ==> #[trigger] final(grid).cell(r, c) == old(
                grid,
            ).cell(r, c),
{
    if lit && grid.get(y, x) == CellType::Empty {
        grid.set(y, x, CellType::Light);
    }
}

/// A tag that generation may leave on an interior cell.
pub open spec fn is_interior_content(cell: CellType) -> bool {
    cell == CellType::Empty || cell == CellType::Column || cell == CellType::Light
        || is_level_weapon(cell) || is_level_enemy(cell)
}

/// The grid carries the four doors drawn at `top`, `bottom`, `left` and `right` for a level
/// entered through `previous_door`: the border is `Column` but for the four doors, and the
/// ring just inside it is `Empty` but for the player start of a first level.
pub open spec fn has_doors(
    grid: &Grid,
    previous_door: Option<Door>,
    top: usize,
    bottom: usize,
    left: usize,
    right: usize,
) -> bool {
    &&& 2 <= top < GRID_SIZE - 2
    &&& 2 <= bottom < GRID_SIZE - 2
    &&& 2 <= left < GRID_SIZE - 2
    &&& 2 <= right < GRID_SIZE - 2
    &&& forall|y: int, x: int|
        on_border(y, x) ==> #[trigger] grid.cell(y, x) == cell_after_doors(
            CellType::Column,
            previous_door,
            top,
            bottom,
            left,
            right,
            y,
            x,
        )
    &&& forall|y: int, x: int|
        on_ring(y, x) ==> #[trigger] grid.cell(y, x) == cell_after_doors(
            CellType::Empty,
            previous_door,
            top,
            bottom,
            left,
            right,
            y,
            x,
        )
}

/// The interior holds nothing but what generation places there, lights only on the light
/// lattice, and no pocket.
pub open spec fn interior_filled(grid: &Grid) -> bool {
    forall|y: int, x: int|
        interior(y, x) ==> is_interior_content(#[trigger] grid.cell(y, x)) && !is_pocket(grid, y, x)
            && (grid.cell(y, x) == CellType::Light ==> on_light_lattice(y, x))
}

/// What holds of every grid that [`generate_normal_level`] returns for `previous_door`.
pub open spec fn is_generated(grid: &Grid, previous_door: Option<Door>) -> bool {
    &&& exists|top: usize, bottom: usize, left: usize, right: usize|
        has_doors(grid, previous_door, top, bottom, left, right)
    &&& interior_filled(grid)
    &&& exists|walled: Grid| has_walls(grid, &walled)
    &&& has_content(grid, LEVEL_WEAPON_SPAWNS as nat, LEVEL_ENEMIES as nat)
}

/// The walls of `grid` are those of `walled` with its pockets walled up, and `walled` is
/// what the wall fill has made of a grid with an empty interior. Outside the interior the
/// two grids agree.
pub open spec fn has_walls(grid: &Grid, walled: &Grid) -> bool {
    &&& exists|bare: Grid|
        {
            &&& forall|y: int, x: int| interior(y, x) ==> #[trigger] bare.cell(y, x) == CellType::Empty
            &&& walls_filled(&bare, walled)
        }
    &&& forall|y: int, x: int|
        in_grid(y, x) && !interior(y, x) ==> #[trigger] walled.cell(y, x) == grid.cell(y, x)
    &&& forall|y: int, x: int|
        interior(y, x) ==> ((#[trigger] grid.cell(y, x)) == CellType::Column <==> (walled.cell(y, x)
            == CellType::Column || is_pocket(walled, y, x)))
}

/// The grid holds `weapons` weapons and `enemies` enemies.
pub open spec fn has_content(grid: &Grid, weapons: nat, enemies: nat) -> bool {
    &&& weapon_cells(grid).finite()
    &&& weapon_cells(grid).len() == weapons
    &&& enemy_cells(grid).finite()
    &&& enemy_cells(grid).len() == enemies
}

/// Generates the grid of an ordinary level.
///
/// `previous_door` is the door through which the player left the level before, or nothing
/// for the first level of a run. The steps, in order: border, doors, wall fill, pocket
/// removal, `LEVEL_WEAPON_SPAWNS` weapons, `LEVEL_ENEMIES` enemies, lights.
pub fn generate_normal_level(previous_door: Option<Door>) -> (grid: Grid)
    requires
        previous_door is Some ==> previous_door->0.wf(),
    ensures
        is_generated(&grid, previous_door),
{
    let mut rng = thread_rng();
    let mut grid = Grid::new();
    fill_border(&mut grid);
    let top = random_index(&mut rng, 2, GRID_SIZE - 2);
    let bottom = random_index(&mut rng, 2, GRID_SIZE - 2);
    let left = random_index(&mut rng, 2, GRID_SIZE - 2);
    let right = random_index(&mut rng, 2, GRID_SIZE - 2);
    place_doors(&mut grid, previous_door, top, bottom, left, right);
    assert(has_doors(&grid, previous_door, top, bottom, left, right));
    assert forall|y: int, x: int| interior(y, x) implies #[trigger] grid.cell(y, x)
        == CellType::Empty by {
        assert(in_grid(y, x));
    }
    let ghost doors = grid;
    fill_walls(&mut grid, &mut rng);
    let ghost walls = grid;
    remove_pockets(&mut grid);
    assert(has_doors(&grid, previous_door, top, bottom, left, right) && interior_filled(&grid)) by {
        assert forall|y: int, x: int| in_grid(y, x) && !interior(y, x) implies #[trigger] grid.cell(
            y,
            x,
        ) == doors.cell(y, x) by {
            assert(walls.cell(y, x) == doors.cell(y, x));
        }
        assert forall|y: int, x: int| in_grid(y, x) && !interior(y, x) && !on_border(
            y,
            x,
        ) implies #[trigger] walls.cell(y, x) != CellType::Column by {
            assert(on_ring(y, x));
            assert(doors.cell(y, x) != CellType::Column);
        }
        assert forall|y: int, x: int| interior(y, x) implies is_interior_content(
            #[trigger] grid.cell(y, x),
        ) && !is_pocket(&grid, y, x) && (grid.cell(y, x) == CellType::Light ==> on_light_lattice(
            y,
            x,
        )) by {
            lemma_no_pocket_left(&walls, &grid, y, x);
            assert(in_grid(y, x));
            assert(walls.cell(y, x) == doors.cell(y, x) || walls.cell(y, x) == CellType::Column);
        }
    }
    proof {
        assert(has_walls(&grid, &walls)) by {
            assert(walls_filled(&doors, &walls));
            assert forall|y: int, x: int| interior(y, x) implies ((#[trigger] grid.cell(y, x))
                == CellType::Column <==> (walls.cell(y, x) == CellType::Column || is_pocket(
                &walls,
                y,
                x,
            ))) by {
                assert(in_grid(y, x));
            }
        }
        lemma_spare_full(&doors);
        assert forall|k: int| 0 <= k < rim_len() implies grid.cell(
            #[trigger] rim_cell(k).0,
            rim_cell(k).1,
        ) == walls.cell(rim_cell(k).0, rim_cell(k).1) by {
            let (y, x) = rim_cell(k);
            assert(in_grid(y, x) && in_grid(y - 1, x) && in_grid(y + 1, x));
            assert(on_ring(y - 1, x) || on_ring(y + 1, x));
            assert(!is_pocket(&walls, y, x));
        }
        lemma_spare_same(&walls, &grid);
        assert forall|y: int, x: int| in_grid(y, x) implies !((#[trigger] grid.cell(
            y,
            x,
        )) is Weapon) && !(grid.cell(y, x) is Enemy) by {
            if interior(y, x) {
                assert(grid.cell(y, x) == CellType::Empty || grid.cell(y, x) == CellType::Column);
            }
        }
        lemma_nothing_placed(&grid);
    }
    let ghost room = rim_len() - NUM_STRIPS * (STRIP_LENGTH + 1);
    let mut placed: usize = 0;
    while placed < LEVEL_WEAPON_SPAWNS
        invariant
            placed <= LEVEL_WEAPON_SPAWNS,
            room == rim_len() - NUM_STRIPS * (STRIP_LENGTH + 1),
            has_doors(&grid, previous_door, top, bottom, left, right),
            interior_filled(&grid),
            has_walls(&grid, &walls),
            has_content(&grid, placed as nat, 0),
            spare(&grid) + placed >= room,
        decreases LEVEL_WEAPON_SPAWNS - placed,
    {
        let ghost before = grid;
        proof {
            lemma_spare_is_free(&before);
        }
        let cell = place_weapon(&mut grid, &mut rng);
        proof {
            let p = cell->0;
            lemma_spare_after_write(&before, &grid, p.0 as int, p.1 as int);
            lemma_placed(&before, &grid, p.0 as int, p.1 as int);
            assert(weapons_added(&before, &grid));
            lemma_content_keeps_shape(
                &before,
                &grid,
                &walls,
                previous_door,
                top,
                bottom,
                left,
                right,
            );
        }
        placed = placed + 1;
    }
    placed = 0;
    while placed < LEVEL_ENEMIES
        invariant
            placed <= LEVEL_ENEMIES,
            room == rim_len() - NUM_STRIPS * (STRIP_LENGTH + 1),
            has_doors(&grid, previous_door, top, bottom, left, right),
            interior_filled(&grid),
            has_walls(&grid, &walls),
            has_content(&grid, LEVEL_WEAPON_SPAWNS as nat, placed as nat),
            spare(&grid) + LEVEL_WEAPON_SPAWNS + placed >= room,
        decreases LEVEL_ENEMIES - placed,
    {
        let ghost before = grid;
        proof {
            lemma_spare_is_free(&before);
        }
        let cell = place_enemy(&mut grid, &mut rng);
        proof {
            let p = cell->0;
            lemma_spare_after_write(&before, &grid, p.0 as int, p.1 as int);
            lemma_placed(&before, &grid, p.0 as int, p.1 as int);
            assert(enemies_added(&before, &grid));
            lemma_content_keeps_shape(
                &before,
                &grid,
                &walls,
                previous_door,
                top,
                bottom,
                left,
                right,
            );
        }
        placed = placed + 1;
    }
    let ghost before = grid;
    place_lights(&mut grid, &mut rng);
    proof {
        lemma_content_keeps_shape(
                &before,
                &grid,
                &walls,
                previous_door,
                top,
                bottom,
                left,
                right,
            );
        assert(weapon_cells(&grid) =~= weapon_cells(&before)) by {
            assert forall|p: (int, int)| in_grid(p.0, p.1) implies (grid.cell(p.0, p.1) is Weapon
                <==> before.cell(p.0, p.1) is Weapon) by {}
        }
        assert(enemy_cells(&grid) =~= enemy_cells(&before)) by {
            assert forall|p: (int, int)| in_grid(p.0, p.1) implies (grid.cell(p.0, p.1) is Enemy
                <==> before.cell(p.0, p.1) is Enemy) by {}
        }
    }
    grid
}

/// Once the pockets of `before` are walled up, cell `(y, x)` is no pocket of the result.
proof fn lemma_no_pocket_left(before: &Grid, after: &Grid, y: int, x: int)
    requires
        interior(y, x),
        forall|r: int, c: int|
            in_grid(r, c) ==> #[trigger] after.cell(r, c) == (if is_pocket(before, r, c) {
                CellType::Column
            } else {
                before.cell(r, c)
            }),
    ensures
        !is_pocket(after, y, x),
{
    assert(in_grid(y, x) && in_grid(y - 1, x) && in_grid(y + 1, x) && in_grid(y, x - 1) && in_grid(
        y,
        x + 1,
    ));
    if is_pocket(after, y, x) {
        assert(before.cell(y, x) == CellType::Empty);
        assert(!is_pocket(before, y, x));
    }
}

/// Content placed on free cells keeps the doors, the ring and the shape of the interior.
proof fn lemma_content_keeps_shape(
    before: &Grid,
    after: &Grid,
    walled: &Grid,
    previous_door: Option<Door>,
    top: usize,
    bottom: usize,
    left: usize,
    right: usize,
)
    requires
        has_doors(before, previous_door, top, bottom, left, right),
        interior_filled(before),
        has_walls(before, walled),
        weapons_added(before, after) || enemies_added(before, after) || lights_added(before, after),
    ensures
        has_doors(after, previous_door, top, bottom, left, right),
        interior_filled(after),
        has_walls(after, walled),
{
    assert forall|y: int, x: int| in_grid(y, x) implies #[trigger] after.cell(y, x) == before.cell(
        y,
        x,
    ) || (is_free(before, y, x) && after.cell(y, x) != CellType::Column && after.cell(y, x)
        != CellType::Empty && is_interior_content(after.cell(y, x)) && (after.cell(y, x)
        == CellType::Light ==> on_light_lattice(y, x))) by {}
    assert forall|y: int, x: int| on_border(y, x) implies #[trigger] after.cell(y, x)
        == before.cell(y, x) by {}
    assert forall|y: int, x: int| on_ring(y, x) implies #[trigger] after.cell(y, x) == before.cell(
        y,
        x,
    ) by {
        assert(in_grid(y, x));
    }
    assert forall|y: int, x: int| interior(y, x) implies is_interior_content(
        #[trigger] after.cell(y, x),
    ) && !is_pocket(after, y, x) && (after.cell(y, x) == CellType::Light ==> on_light_lattice(
        y,
        x,
    )) by {
        assert(in_grid(y, x) && in_grid(y - 1, x) && in_grid(y + 1, x) && in_grid(y, x - 1)
            && in_grid(y, x + 1));
        if is_pocket(after, y, x) {
            assert(is_pocket(before, y, x));
        }
    }
    assert forall|y: int, x: int| in_grid(y, x) && !interior(y, x) implies #[trigger] walled.cell(
        y,
        x,
    ) == after.cell(y, x) by {
        assert(after.cell(y, x) == before.cell(y, x));
    }
    assert forall|y: int, x: int| interior(y, x) implies ((#[trigger] after.cell(y, x))
        == CellType::Column <==> (walled.cell(y, x) == CellType::Column || is_pocket(
        walled,
        y,
        x,
    ))) by {
        assert(in_grid(y, x));
        assert((before.cell(y, x) == CellType::Column) <==> (walled.cell(y, x) == CellType::Column
            || is_pocket(walled, y, x)));
    }
}

} // verus!
