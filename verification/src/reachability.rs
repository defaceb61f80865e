//! Connectivity of generated grids: the ring just inside the border is never
//! walled, so every door can be reached from the player start.

use vstd::prelude::*;
use crate::config::GRID_SIZE;
use crate::door::{Door, DoorType};
use crate::generation::{cell_after_doors, door_cell, has_doors, is_generated};
use crate::layout::{door_on, lemma_door_on, lemma_first_level};
use crate::grid::{in_grid, on_ring, CellType, Grid};

verus! {

/// `a` and `b` share an edge.
pub open spec fn adjacent(a: (int, int), b: (int, int)) -> bool {
    (a.0 == b.0 && (a.1 == b.1 + 1 || b.1 == a.1 + 1)) || (a.1 == b.1 && (a.0 == b.0 + 1 || b.0
        == a.0 + 1))
}

/// A cell that can be walked over: an `Empty` one, or the player start.
pub open spec fn is_open(grid: &Grid, cell: (int, int)) -> bool {
    in_grid(cell.0, cell.1) && (grid.cell(cell.0, cell.1) == CellType::Empty || grid.cell(
        cell.0,
        cell.1,
    ) == CellType::Player)
}

/// `path` leads from `from` to `to` in steps between cells that share an edge, and every
/// cell on the way between its two ends is open.
pub open spec fn is_path(grid: &Grid, path: Seq<(int, int)>, from: (int, int), to: (int, int))
    -> bool {
    &&& path.len() >= 1
    &&& path[0] == from
    &&& path[path.len() - 1] == to
    &&& forall|i: int| 0 <= i < path.len() - 1 ==> adjacent(#[trigger] path[i], path[i + 1])
    &&& forall|i: int| 0 < i < path.len() - 1 ==> is_open(grid, #[trigger] path[i])
}

/// Some path leads from `from` to `to`.
pub open spec fn connected(grid: &Grid, from: (int, int), to: (int, int)) -> bool {
    exists|path: Seq<(int, int)>| is_path(grid, path, from, to)
}

/// Cells on one side of the ring.
pub open spec fn ring_side() -> int {
    GRID_SIZE - 3
}

/// The ring as a round trip: cell number `k` of `4 * ring_side()`, clockwise from the cell
/// next to the top left corner.
pub open spec fn ring_cell(k: int) -> (int, int) {
    let n = ring_side();
    if k < n {
        (1, 1 + k)
    } else if k < 2 * n {
        (1 + (k - n), 1 + n)
    } else if k < 3 * n {
        (1 + n, 1 + n - (k - 2 * n))
    } else {
        (1 + n - (k - 3 * n), 1)
    }
}

/// The number that [`ring_cell`] gives to the ring cell `(y, x)`.
pub open spec fn ring_index(y: int, x: int) -> int {
    let n = ring_side();
    if y == 1 && x <= n {
        x - 1
    } else if x == 1 + n && y <= n {
        n + (y - 1)
    } else if y == 1 + n && x >= 2 {
        2 * n + (1 + n - x)
    } else {
        3 * n + (1 + n - y)
    }
}

/// The stretch of the ring from cell number `i` to cell number `j`, walked in the direction
/// in which the numbers lead from the one to the other.
pub open spec fn ring_walk(i: int, j: int) -> Seq<(int, int)> {
    if i <= j {
        Seq::new((j - i + 1) as nat, |t: int| ring_cell(i + t))
    } else {
        Seq::new((i - j + 1) as nat, |t: int| ring_cell(i - t))
    }
}

/// Every ring cell has a number, and cells with neighbouring numbers share an edge.
pub proof fn lemma_ring(y: int, x: int, k: int)
    ensures
        on_ring(y, x) ==> 0 <= ring_index(y, x) < 4 * ring_side() && ring_cell(ring_index(y, x))
            == (y, x),
        0 <= k < 4 * ring_side() ==> on_ring(ring_cell(k).0, ring_cell(k).1),
        0 <= k < 4 * ring_side() - 1 ==> adjacent(ring_cell(k), ring_cell(k + 1)),
{
}

/// Every ring cell of a generated grid is open.
pub proof fn lemma_ring_open(grid: &Grid, previous_door: Option<Door>, y: int, x: int)
    requires
        is_generated(grid, previous_door),
        on_ring(y, x),
    ensures
        is_open(grid, (y, x)),
{
    let (top, bottom, left, right) = choose|top: usize, bottom: usize, left: usize, right: usize|
        has_doors(grid, previous_door, top, bottom, left, right);
    assert(has_doors(grid, previous_door, top, bottom, left, right));
    assert(grid.cell(y, x) == cell_after_doors(
        CellType::Empty,
        previous_door,
        top,
        bottom,
        left,
        right,
        y,
        x,
    ));
}

/// Any two ring cells of a generated grid are connected along the ring.
pub proof fn lemma_ring_connected(
    grid: &Grid,
    previous_door: Option<Door>,
    from: (int, int),
    to: (int, int),
)
    requires
        is_generated(grid, previous_door),
        on_ring(from.0, from.1),
        on_ring(to.0, to.1),
    ensures
        is_path(
            grid,
            ring_walk(ring_index(from.0, from.1), ring_index(to.0, to.1)),
            from,
            to,
        ),
{
    let i = ring_index(from.0, from.1);
    let j = ring_index(to.0, to.1);
    lemma_ring(from.0, from.1, 0);
    lemma_ring(to.0, to.1, 0);
    let path = ring_walk(i, j);
    assert forall|t: int| 0 <= t < path.len() - 1 implies adjacent(#[trigger] path[t], path[t + 1]) by {
        if i <= j {
            lemma_ring(0, 0, i + t);
        } else {
            lemma_ring(0, 0, i - t - 1);
        }
    }
    assert forall|t: int| 0 < t < path.len() - 1 implies is_open(grid, #[trigger] path[t]) by {
        let k = if i <= j {
            i + t
        } else {
            i - t
        };
        lemma_ring(0, 0, k);
        lemma_ring_open(grid, previous_door, ring_cell(k).0, ring_cell(k).1);
    }
}

/// The ring cell one step inside the border cell of `side` at index `pos`.
pub open spec fn inside_of(side: DoorType, pos: int) -> (int, int) {
    match side {
        DoorType::Top => (1, pos),
        DoorType::Bottom => (GRID_SIZE - 2, pos),
        DoorType::Left => (pos, 1),
        DoorType::Right => (pos, GRID_SIZE - 2),
    }
}

/// Connectivity: in a generated grid every door cell is connected to every cell of the
/// ring, and so to the player start, which lies on the ring. Walls, weapons and enemies go
/// to the interior only and can cut no door off.
pub proof fn lemma_door_reachable(
    grid: &Grid,
    previous_door: Option<Door>,
    from: (int, int),
    side: DoorType,
    pos: int,
)
    requires
        is_generated(grid, previous_door),
        on_ring(from.0, from.1),
        1 <= pos <= GRID_SIZE - 2,
    ensures
        connected(grid, from, door_cell(side, pos)),
{
    let inner = inside_of(side, pos);
    let door = door_cell(side, pos);
    assert(on_ring(inner.0, inner.1));
    lemma_ring_connected(grid, previous_door, from, inner);
    lemma_ring_open(grid, previous_door, inner.0, inner.1);
    let along = ring_walk(ring_index(from.0, from.1), ring_index(inner.0, inner.1));
    let path = along.push(door);
    assert(adjacent(inner, door));
    assert forall|t: int| 0 <= t < path.len() - 1 implies adjacent(#[trigger] path[t], path[t + 1]) by {
        if t < along.len() - 1 {
            assert(adjacent(along[t], along[t + 1]));
        }
    }
    assert forall|t: int| 0 < t < path.len() - 1 implies is_open(grid, #[trigger] path[t]) by {
        if t < along.len() - 1 {
            assert(is_open(grid, along[t]));
        }
    }
    assert(is_path(grid, path, from, door));
}

/// On a first level every door is connected to the player start.
pub proof fn lemma_doors_reachable_from_start(grid: &Grid, side: DoorType)
    requires
        is_generated(grid, None),
    ensures
        grid.cell(1, door_on(grid, None, DoorType::Top).grid_pos as int) == CellType::Player,
        connected(
            grid,
            (1, door_on(grid, None, DoorType::Top).grid_pos as int),
            door_cell(side, door_on(grid, None, side).grid_pos as int),
        ),
{
    lemma_first_level(grid);
    lemma_door_on(grid, None, DoorType::Top);
    lemma_door_on(grid, None, side);
    lemma_door_reachable(
        grid,
        None,
        (1, door_on(grid, None, DoorType::Top).grid_pos as int),
        side,
        door_on(grid, None, side).grid_pos as int,
    );
}

} // verus!
