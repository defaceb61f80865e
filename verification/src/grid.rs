//! The level grid: a square of cell tags, stored row by row.
//!
//! Row 0 is the top border and column 0 the left border. A cell is named by
//! its row `y` and its column `x`.

use vstd::prelude::*;
use crate::config::GRID_SIZE;
use crate::door::Door;

verus! {

/// Kind of weapon that a cell can hold.
#[derive(Debug, Clone, Copy, PartialEq, Eq, Structural)]
pub enum WeaponType {
    Pistol,
    Shotgun,
    Minigun,
}

/// Kind of enemy that a cell can hold.
#[derive(Debug, Clone, Copy, PartialEq, Eq, Structural)]
pub enum EnemyType {
    Small,
    Mid,
    Big,
}

/// Tag of one grid cell.
#[derive(Debug, Clone, Copy, PartialEq, Eq, Structural)]
pub enum CellType {
    Empty,
    Door(Door),
    Column,
    Light,
    Weapon(WeaponType),
    Enemy(EnemyType),
    Player,
}

/// `(y, x)` names a cell of the grid.
pub open spec fn in_grid(y: int, x: int) -> bool {
    0 <= y < GRID_SIZE && 0 <= x < GRID_SIZE
}

/// `(y, x)` lies on the outermost ring of the grid.
pub open spec fn on_border(y: int, x: int) -> bool {
    in_grid(y, x) && (y == 0 || y == GRID_SIZE - 1 || x == 0 || x == GRID_SIZE - 1)
}

/// `(y, x)` lies on the ring just inside the border, which generation keeps free of walls.
pub open spec fn on_ring(y: int, x: int) -> bool {
    1 <= y <= GRID_SIZE - 2 && 1 <= x <= GRID_SIZE - 2 && (y == 1 || y == GRID_SIZE - 2 || x == 1
        || x == GRID_SIZE - 2)
}

/// `(y, x)` lies in the interior, the part of the grid that generation fills.
pub open spec fn interior(y: int, x: int) -> bool {
    2 <= y < GRID_SIZE - 2 && 2 <= x < GRID_SIZE - 2
}

/// A `GRID_SIZE × GRID_SIZE` grid of cell tags.
pub struct Grid {
    cells: Vec<CellType>,
}

impl Grid {
    #[verifier::type_invariant]
    spec fn well_formed(&self) -> bool {
        self.cells@.len() == GRID_SIZE * GRID_SIZE
    }

    /// The tag at row `y`, column `x`.
    pub closed spec fn cell(&self, y: int, x: int) -> CellType
        recommends
            in_grid(y, x),
    {
        self.cells@[y * GRID_SIZE as int + x]
    }

    /// A grid with every cell `Empty`.
    pub fn new() -> (g: Grid)
        ensures
            forall|y: int, x: int| in_grid(y, x) ==> #[trigger] g.cell(y, x) == CellType::Empty,
    {
        let mut cells: Vec<CellType> = Vec::new();
        let mut i: usize = 0;
        while i < GRID_SIZE * GRID_SIZE
            invariant
                i <= GRID_SIZE * GRID_SIZE,
                cells@.len() == i,
                forall|k: int| 0 <= k < i ==> cells@[k] == CellType::Empty,
            decreases GRID_SIZE * GRID_SIZE - i,
        {
            cells.push(CellType::Empty);
            i = i + 1;
        }
        Grid { cells }
    }

    /// Reads the tag at row `y`, column `x`.
    pub fn get(&self, y: usize, x: usize) -> (c: CellType)
        requires
            in_grid(y as int, x as int),
        ensures
            c == self.cell(y as int, x as int),
    {
        proof {
            use_type_invariant(self);
        }
        self.cells[y * GRID_SIZE + x]
    }

    /// Writes `value` at row `y`, column `x` and leaves every other cell as it was.
    pub fn set(&mut self, y: usize, x: usize, value: CellType)
        requires
            in_grid(y as int, x as int),
        ensures
            final(self).cell(y as int, x as int) == value,
            forall|r: int, c: int|
                in_grid(r, c) && !(r == y && c == x) ==> #[trigger] final(self).cell(r, c) == old(self).cell(
                    r,
                    c,
                ),
    {
        proof {
            use_type_invariant(&*self);
        }
        self.cells[y * GRID_SIZE + x] = value;
    }

    /// Reads the tag at `(y, x)`, or nothing when that is not a cell of the grid.
    pub fn try_get(&self, y: usize, x: usize) -> (c: Option<CellType>)
        ensures
            c == (if in_grid(y as int, x as int) {
                Some(self.cell(y as int, x as int))
            } else {
                None
            }),
    {
        if y < GRID_SIZE && x < GRID_SIZE {
            Some(self.get(y, x))
        } else {
            None
        }
    }
}

} // verus!
