//! What holds of the layout of every generated grid: a closed border, four
//! doors, and the mirroring of the door the player came through.

use vstd::prelude::*;
use crate::door::{Door, DoorState, DoorType};
use crate::generation::{cell_after_doors, door_cell, has_doors, is_generated, planned_door};
use crate::grid::{in_grid, interior, on_border, on_ring, CellType, Grid};

verus! {

/// The cells of the grid that hold a door.
pub open spec fn door_cells(grid: &Grid) -> Set<(int, int)> {
    Set::new(|p: (int, int)| in_grid(p.0, p.1) && grid.cell(p.0, p.1) is Door)
}

/// The door that a generated grid has on `side`.
pub open spec fn door_on(grid: &Grid, previous_door: Option<Door>, side: DoorType) -> Door {
    let (top, bottom, left, right) = choose|top: usize, bottom: usize, left: usize, right: usize|
        has_doors(grid, previous_door, top, bottom, left, right);
    match side {
        DoorType::Top => planned_door(previous_door, side, top),
        DoorType::Bottom => planned_door(previous_door, side, bottom),
        DoorType::Left => planned_door(previous_door, side, left),
        DoorType::Right => planned_door(previous_door, side, right),
    }
}

/// The door on each side of a generated grid sits on the border of that side, clear of
/// the corners, and its cell holds it.
pub proof fn lemma_door_on(grid: &Grid, previous_door: Option<Door>, side: DoorType)
    requires
        is_generated(grid, previous_door),
        previous_door is Some ==> previous_door->0.wf(),
    ensures
        door_on(grid, previous_door, side).door_type == side,
        door_on(grid, previous_door, side).wf(),
        ({
            let door = door_on(grid, previous_door, side);
            let (y, x) = door_cell(side, door.grid_pos as int);
            on_border(y, x) && grid.cell(y, x) == CellType::Door(door)
        }),
{
    let (top, bottom, left, right) = choose|top: usize, bottom: usize, left: usize, right: usize|
        has_doors(grid, previous_door, top, bottom, left, right);
    assert(has_doors(grid, previous_door, top, bottom, left, right));
    let door = door_on(grid, previous_door, side);
    let (y, x) = door_cell(side, door.grid_pos as int);
    assert(on_border(y, x));
    assert(grid.cell(y, x) == cell_after_doors(
        CellType::Column,
        previous_door,
        top,
        bottom,
        left,
        right,
        y,
        x,
    ));
}

/// Border closure: every border cell of a generated grid is a `Column` or the door of the
/// side it lies on, at that door's position. No border cell is `Empty`.
pub proof fn lemma_border_closed(grid: &Grid, previous_door: Option<Door>, y: int, x: int)
    requires
        is_generated(grid, previous_door),
        previous_door is Some ==> previous_door->0.wf(),
        on_border(y, x),
    ensures
        grid.cell(y, x) == CellType::Column || exists|side: DoorType|
            (y, x) == door_cell(side, door_on(grid, previous_door, side).grid_pos as int)
                && grid.cell(y, x) == CellType::Door(door_on(grid, previous_door, side)),
{
    let (top, bottom, left, right) = choose|top: usize, bottom: usize, left: usize, right: usize|
        has_doors(grid, previous_door, top, bottom, left, right);
    assert(has_doors(grid, previous_door, top, bottom, left, right));
    assert(grid.cell(y, x) == cell_after_doors(
        CellType::Column,
        previous_door,
        top,
        bottom,
        left,
        right,
        y,
        x,
    ));
    if grid.cell(y, x) != CellType::Column {
        let side = grid.cell(y, x)->Door_0.door_type;
        assert((y, x) == door_cell(side, door_on(grid, previous_door, side).grid_pos as int)
            && grid.cell(y, x) == CellType::Door(door_on(grid, previous_door, side)));
    }
}

/// A door cell of a generated grid is the cell of the door on one of the four sides.
pub proof fn lemma_door_cell_is_door_on(grid: &Grid, previous_door: Option<Door>, y: int, x: int)
    requires
        is_generated(grid, previous_door),
        previous_door is Some ==> previous_door->0.wf(),
        in_grid(y, x),
        grid.cell(y, x) is Door,
    ensures
        ({
            let door = grid.cell(y, x)->Door_0;
            door == door_on(grid, previous_door, door.door_type) && (y, x) == door_cell(
                door.door_type,
                door.grid_pos as int,
            )
        }),
{
    let (top, bottom, left, right) = choose|top: usize, bottom: usize, left: usize, right: usize|
        has_doors(grid, previous_door, top, bottom, left, right);
    assert(has_doors(grid, previous_door, top, bottom, left, right));
    if on_border(y, x) {
        assert(grid.cell(y, x) == cell_after_doors(
            CellType::Column,
            previous_door,
            top,
            bottom,
            left,
            right,
            y,
            x,
        ));
    } else if on_ring(y, x) {
        assert(grid.cell(y, x) == cell_after_doors(
            CellType::Empty,
            previous_door,
            top,
            bottom,
            left,
            right,
            y,
            x,
        ));
    } else {
        assert(interior(y, x));
    }
}

/// Door count: a generated grid has exactly four door cells, one for each side, and none of
/// them on a corner.
pub proof fn lemma_four_doors(grid: &Grid, previous_door: Option<Door>)
    requires
        is_generated(grid, previous_door),
        previous_door is Some ==> previous_door->0.wf(),
    ensures
        door_cells(grid).finite(),
        door_cells(grid).len() == 4,
        forall|p: (int, int)| #[trigger]
            door_cells(grid).contains(p) ==> {
                let door = grid.cell(p.0, p.1)->Door_0;
                door.wf() && p == door_cell(door.door_type, door.grid_pos as int) && door
                    == door_on(grid, previous_door, door.door_type)
            },
        forall|side: DoorType| #[trigger]
            door_cells(grid).contains(
                door_cell(side, door_on(grid, previous_door, side).grid_pos as int),
            ),
{
    let t = door_on(grid, previous_door, DoorType::Top);
    let b = door_on(grid, previous_door, DoorType::Bottom);
    let l = door_on(grid, previous_door, DoorType::Left);
    let r = door_on(grid, previous_door, DoorType::Right);
    lemma_door_on(grid, previous_door, DoorType::Top);
    lemma_door_on(grid, previous_door, DoorType::Bottom);
    lemma_door_on(grid, previous_door, DoorType::Left);
    lemma_door_on(grid, previous_door, DoorType::Right);
    let ct = door_cell(DoorType::Top, t.grid_pos as int);
    let cb = door_cell(DoorType::Bottom, b.grid_pos as int);
    let cl = door_cell(DoorType::Left, l.grid_pos as int);
    let cr = door_cell(DoorType::Right, r.grid_pos as int);
    assert forall|p: (int, int)| #[trigger] door_cells(grid).contains(p) implies {
        let door = grid.cell(p.0, p.1)->Door_0;
        door.wf() && p == door_cell(door.door_type, door.grid_pos as int) && door == door_on(
            grid,
            previous_door,
            door.door_type,
        )
    } by {
        lemma_door_cell_is_door_on(grid, previous_door, p.0, p.1);
        lemma_door_on(grid, previous_door, grid.cell(p.0, p.1)->Door_0.door_type);
    }
    assert forall|side: DoorType| #[trigger]
        door_cells(grid).contains(
            door_cell(side, door_on(grid, previous_door, side).grid_pos as int),
        ) by {
        lemma_door_on(grid, previous_door, side);
    }
    let four = Set::<(int, int)>::empty().insert(ct).insert(cb).insert(cl).insert(cr);
    assert(door_cells(grid) =~= four) by {
        assert forall|p: (int, int)| door_cells(grid).contains(p) implies four.contains(p) by {
            let side = grid.cell(p.0, p.1)->Door_0.door_type;
            assert(p == door_cell(side, door_on(grid, previous_door, side).grid_pos as int));
        }
    }
}

/// Mirroring: a level entered through `previous` has, on the side opposite that door, a
/// door at the same position that is `TemporaryOpen`; every other door of the grid is
/// `Locked`.
pub proof fn lemma_mirroring(grid: &Grid, previous: Door)
    requires
        is_generated(grid, Some(previous)),
        previous.wf(),
    ensures
        ({
            let side = previous.door_type.spec_opposite();
            let (y, x) = door_cell(side, previous.grid_pos as int);
            grid.cell(y, x) == CellType::Door(
                Door {
                    door_type: side,
                    door_state: DoorState::TemporaryOpen,
                    grid_pos: previous.grid_pos,
                },
            )
        }),
        forall|y: int, x: int|
            in_grid(y, x) && (#[trigger] grid.cell(y, x)) is Door && (y, x) != door_cell(
                previous.door_type.spec_opposite(),
                previous.grid_pos as int,
            ) ==> grid.cell(y, x)->Door_0.door_state == DoorState::Locked,
{
    let side = previous.door_type.spec_opposite();
    lemma_door_on(grid, Some(previous), side);
    assert forall|y: int, x: int|
        in_grid(y, x) && (#[trigger] grid.cell(y, x)) is Door && (y, x) != door_cell(
            side,
            previous.grid_pos as int,
        ) implies grid.cell(y, x)->Door_0.door_state == DoorState::Locked by {
        lemma_door_cell_is_door_on(grid, Some(previous), y, x);
    }
}

/// A first level: the top door is `Unlocked`, the three others are `Locked`, and the player
/// start lies one row inside the top door.
pub proof fn lemma_first_level(grid: &Grid)
    requires
        is_generated(grid, None),
    ensures
        door_on(grid, None, DoorType::Top).door_state == DoorState::Unlocked,
        door_on(grid, None, DoorType::Bottom).door_state == DoorState::Locked,
        door_on(grid, None, DoorType::Left).door_state == DoorState::Locked,
        door_on(grid, None, DoorType::Right).door_state == DoorState::Locked,
        grid.cell(1, door_on(grid, None, DoorType::Top).grid_pos as int) == CellType::Player,
        forall|y: int, x: int|
            in_grid(y, x) && #[trigger] grid.cell(y, x) == CellType::Player ==> y == 1 && x
                == door_on(grid, None, DoorType::Top).grid_pos,
{
    let (top, bottom, left, right) = choose|top: usize, bottom: usize, left: usize, right: usize|
        has_doors(grid, None, top, bottom, left, right);
    assert(has_doors(grid, None, top, bottom, left, right));
    assert(on_ring(1, top as int));
    assert(grid.cell(1, top as int) == cell_after_doors(
        CellType::Empty,
        None,
        top,
        bottom,
        left,
        right,
        1,
        top as int,
    ));
    assert forall|y: int, x: int|
        in_grid(y, x) && #[trigger] grid.cell(y, x) == CellType::Player implies y == 1 && x
        == top by {
        if on_border(y, x) {
            assert(grid.cell(y, x) == cell_after_doors(
                CellType::Column,
                None,
                top,
                bottom,
                left,
                right,
                y,
                x,
            ));
        } else if on_ring(y, x) {
            assert(grid.cell(y, x) == cell_after_doors(
                CellType::Empty,
                None,
                top,
                bottom,
                left,
                right,
                y,
                x,
            ));
        } else {
            assert(interior(y, x));
        }
    }
}

} // verus!
