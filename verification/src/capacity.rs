//! Room for placements: the wall fill is too small to use up the free cells,
//! so a weapon or an enemy always finds its place.
//!
//! The count goes by the first and the last row of the interior. No pocket
//! can form there, since each of their cells borders on the ring, which is
//! never walled.

use vstd::prelude::*;
use vstd::set_lib::{lemma_int_range, lemma_len_subset, set_int_range};
use crate::config::GRID_SIZE;
use crate::generation::is_free;
use crate::grid::{in_grid, interior, CellType, Grid};

verus! {

/// Cells in one row of the interior.
pub open spec fn interior_width() -> int {
    GRID_SIZE - 4
}

/// Cells in the first and the last row of the interior together.
pub open spec fn rim_len() -> int {
    2 * interior_width()
}

/// Cell number `k` of the two rows: the first row of the interior from left to right, then
/// the last.
pub open spec fn rim_cell(k: int) -> (int, int) {
    if k < interior_width() {
        (2, 2 + k)
    } else {
        (GRID_SIZE - 3, 2 + k - interior_width())
    }
}

/// The numbers of the free cells among the two rows.
pub open spec fn free_rim(grid: &Grid) -> Set<int> {
    Set::new(|k: int| 0 <= k < rim_len() && is_free(grid, rim_cell(k).0, rim_cell(k).1))
}

/// How many cells of the two rows are free.
pub open spec fn spare(grid: &Grid) -> nat {
    free_rim(grid).len()
}

/// The weapons of the grid.
pub open spec fn weapon_cells(grid: &Grid) -> Set<(int, int)> {
    Set::new(|p: (int, int)| in_grid(p.0, p.1) && grid.cell(p.0, p.1) is Weapon)
}

/// The enemies of the grid.
pub open spec fn enemy_cells(grid: &Grid) -> Set<(int, int)> {
    Set::new(|p: (int, int)| in_grid(p.0, p.1) && grid.cell(p.0, p.1) is Enemy)
}

/// The free cells of the two rows are finitely many, no more than the rows are long.
pub proof fn lemma_spare_bound(grid: &Grid)
    ensures
        free_rim(grid).finite(),
        spare(grid) <= rim_len(),
{
    lemma_int_range(0, rim_len());
    assert(free_rim(grid).subset_of(set_int_range(0, rim_len())));
    lemma_len_subset(free_rim(grid), set_int_range(0, rim_len()));
}

/// With the whole interior free, both rows are free from end to end.
pub proof fn lemma_spare_full(grid: &Grid)
    requires
        forall|y: int, x: int| interior(y, x) ==> #[trigger] grid.cell(y, x) == CellType::Empty,
    ensures
        spare(grid) == rim_len(),
{
    lemma_int_range(0, rim_len());
    assert(free_rim(grid) =~= set_int_range(0, rim_len())) by {
        assert forall|k: int| 0 <= k < rim_len() implies free_rim(grid).contains(k) by {
            assert(interior(rim_cell(k).0, rim_cell(k).1));
        }
    }
}

/// A grid that differs from `before` in the cell `(y, x)` at most has at most one free cell
/// less in the two rows.
pub proof fn lemma_spare_after_write(before: &Grid, after: &Grid, y: int, x: int)
    requires
        forall|r: int, c: int|
            in_grid(r, c) && !(r == y && c == x) ==> #[trigger] after.cell(r, c) == before.cell(
                r,
                c,
            ),
    ensures
        spare(after) + 1 >= spare(before),
{
    lemma_spare_bound(before);
    lemma_spare_bound(after);
    let k0 = if y == 2 {
        x - 2
    } else {
        x - 2 + interior_width()
    };
    let kept = free_rim(before).remove(k0);
    assert(kept.subset_of(free_rim(after))) by {
        assert forall|k: int| kept.contains(k) implies free_rim(after).contains(k) by {
            let (r, c) = rim_cell(k);
            assert(in_grid(r, c) && !(r == y && c == x));
            assert(after.cell(r, c) == before.cell(r, c));
        }
    }
    lemma_len_subset(kept, free_rim(after));
}

/// A grid that agrees with `before` on the two rows has as many free cells there.
pub proof fn lemma_spare_same(before: &Grid, after: &Grid)
    requires
        forall|k: int|
            0 <= k < rim_len() ==> after.cell(#[trigger] rim_cell(k).0, rim_cell(k).1)
                == before.cell(rim_cell(k).0, rim_cell(k).1),
    ensures
        spare(after) == spare(before),
{
    assert(free_rim(after) =~= free_rim(before)) by {
        assert forall|k: int| free_rim(after).contains(k) <==> free_rim(before).contains(k) by {
            if 0 <= k < rim_len() {
                assert(after.cell(rim_cell(k).0, rim_cell(k).1) == before.cell(
                    rim_cell(k).0,
                    rim_cell(k).1,
                ));
            }
        }
    }
}

/// Where a cell of the two rows is free, the grid has a free cell.
pub proof fn lemma_spare_is_free(grid: &Grid)
    requires
        spare(grid) >= 1,
    ensures
        exists|y: int, x: int| is_free(grid, y, x),
{
    lemma_spare_bound(grid);
    let k = free_rim(grid).choose();
    assert(free_rim(grid).contains(k));
    assert(is_free(grid, rim_cell(k).0, rim_cell(k).1));
}

/// A grid without any weapon or enemy.
pub proof fn lemma_nothing_placed(grid: &Grid)
    requires
        forall|y: int, x: int|
            in_grid(y, x) ==> !((#[trigger] grid.cell(y, x)) is Weapon) && !(grid.cell(
                y,
                x,
            ) is Enemy),
    ensures
        weapon_cells(grid) == Set::<(int, int)>::empty(),
        enemy_cells(grid) == Set::<(int, int)>::empty(),
{
    assert(weapon_cells(grid) =~= Set::<(int, int)>::empty());
    assert(enemy_cells(grid) =~= Set::<(int, int)>::empty());
}

/// Writing `value` on the free cell `(y, x)` adds that cell to the weapons if `value` is
/// one, and to the enemies if it is one of those, and takes no cell from either.
pub proof fn lemma_placed(before: &Grid, after: &Grid, y: int, x: int)
    requires
        is_free(before, y, x),
        forall|r: int, c: int|
            in_grid(r, c) && !(r == y && c == x) ==> #[trigger] after.cell(r, c) == before.cell(
                r,
                c,
            ),
    ensures
        weapon_cells(after) == (if after.cell(y, x) is Weapon {
            weapon_cells(before).insert((y, x))
        } else {
            weapon_cells(before)
        }),
        enemy_cells(after) == (if after.cell(y, x) is Enemy {
            enemy_cells(before).insert((y, x))
        } else {
            enemy_cells(before)
        }),
        !weapon_cells(before).contains((y, x)),
        !enemy_cells(before).contains((y, x)),
{
    assert(in_grid(y, x));
    assert forall|p: (int, int)| in_grid(p.0, p.1) && p != (y, x) implies after.cell(p.0, p.1)
        == before.cell(p.0, p.1) by {}
    if after.cell(y, x) is Weapon {
        assert(weapon_cells(after) =~= weapon_cells(before).insert((y, x)));
    } else {
        assert(weapon_cells(after) =~= weapon_cells(before));
    }
    if after.cell(y, x) is Enemy {
        assert(enemy_cells(after) =~= enemy_cells(before).insert((y, x)));
    } else {
        assert(enemy_cells(after) =~= enemy_cells(before));
    }
}

} // verus!
