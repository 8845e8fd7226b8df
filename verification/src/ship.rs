//! Ships and the shape rules that a placement must meet.

use crate::board::Cell;
use crate::catalog::ShipType;
use crate::error::GameError;
use vstd::prelude::*;

verus! {

/// Every cell of the sequence lies on the board.
pub open spec fn all_in_bounds(cells: Seq<Cell>) -> bool {
    forall|i: int| 0 <= i < cells.len() ==> (#[trigger] cells[i]).in_bounds()
}

/// Each cell follows the one before it by the step `(dx, dy)`.
pub open spec fn runs_along(cells: Seq<Cell>, dx: int, dy: int) -> bool {
    forall|i: int|
        0 < i < cells.len() ==> (#[trigger] cells[i]).x == cells[i - 1].x + dx && cells[i].y
            == cells[i - 1].y + dy
}

/// The cells run along one row or one column in unit steps, in either direction.
pub open spec fn contiguous(cells: Seq<Cell>) -> bool {
    runs_along(cells, 1, 0) || runs_along(cells, -1, 0) || runs_along(cells, 0, 1) || runs_along(
        cells,
        0,
        -1,
    )
}

/// The rule that a placement breaks by its shape alone, the first in the order
/// length, bounds, contiguity; `None` for a sound shape.
pub open spec fn shape_error(ship_type: ShipType, cells: Seq<Cell>) -> Option<GameError> {
    if cells.len() != ship_type.spec_length() {
        Some(GameError::WrongLength)
    } else if !all_in_bounds(cells) {
        Some(GameError::OutOfBounds)
    } else if !contiguous(cells) {
        Some(GameError::NotContiguous)
    } else {
        None
    }
}

/// A run of cells visits no cell twice: the cell at `i` lies `i` steps from the first.
pub proof fn lemma_run_positions(cells: Seq<Cell>, dx: int, dy: int, i: int)
    requires
        runs_along(cells, dx, dy),
        0 <= i < cells.len(),
    ensures
        cells[i].x == cells[0].x + i * dx,
        cells[i].y == cells[0].y + i * dy,
    decreases i,
{
    if i > 0 {
        lemma_run_positions(cells, dx, dy, i - 1);
        assert(cells[i].x == cells[i - 1].x + dx);
        assert((i - 1) * dx + dx == i * dx) by (nonlinear_arith);
        assert((i - 1) * dy + dy == i * dy) by (nonlinear_arith);
    }
}

/// Contiguous cells are pairwise distinct.
pub proof fn lemma_contiguous_distinct(cells: Seq<Cell>)
    requires
        contiguous(cells),
    ensures
        cells.no_duplicates(),
{
    assert forall|i: int, j: int| 0 <= i < cells.len() && 0 <= j < cells.len() && i != j implies cells[i]
        != cells[j] by {
        if runs_along(cells, 1, 0) {
            lemma_run_positions(cells, 1, 0, i);
            lemma_run_positions(cells, 1, 0, j);
        } else if runs_along(cells, -1, 0) {
            lemma_run_positions(cells, -1, 0, i);
            lemma_run_positions(cells, -1, 0, j);
        } else if runs_along(cells, 0, 1) {
            lemma_run_positions(cells, 0, 1, i);
            lemma_run_positions(cells, 0, 1, j);
        } else {
            lemma_run_positions(cells, 0, -1, i);
            lemma_run_positions(cells, 0, -1, j);
        }
    }
}

/// A ship: its type and the cells it covers, in the order given at placement.
#[derive(Debug)]
pub struct Ship {
    pub ship_type: ShipType,
    pub cells: Vec<Cell>,
}

impl Ship {
    /// The ship has the catalog length of its type and lies contiguous on the board.
    pub open spec fn wf(&self) -> bool {
        shape_error(self.ship_type, self.cells@) is None
    }

    /// Builds a ship after checking its shape.
    pub fn new(ship_type: ShipType, cells: Vec<Cell>) -> (r: Result<Ship, GameError>)
        ensures
            match r {
                Ok(ship) => shape_error(ship_type, cells@) is None && ship.ship_type == ship_type
                    && ship.cells@ == cells@,
                Err(e) => shape_error(ship_type, cells@) == Some(e),
            },
    {
        match check_shape(ship_type, &cells) {
            Some(e) => Err(e),
            None => Ok(Ship { ship_type, cells }),
        }
    }
}

/// Whether every cell lies on the board.
pub fn cells_in_bounds(cells: &Vec<Cell>) -> (r: bool)
    ensures
        r == all_in_bounds(cells@),
{
    let mut i: usize = 0;
    while i < cells.len()
        invariant
            i <= cells.len(),
            forall|k: int| 0 <= k < i ==> (#[trigger] cells@[k]).in_bounds(),
        decreases cells.len() - i,
    {
        if !cells[i].is_in_bounds() {
            return false;
        }
        i += 1;
    }
    true
}

/// Whether `b` follows `a` by the step `(dx, dy)`, each part of the step being -1, 0 or 1.
fn follows(a: Cell, b: Cell, dx: i8, dy: i8) -> (r: bool)
    requires
        -1 <= dx <= 1,
        -1 <= dy <= 1,
    ensures
        r == (b.x == a.x + dx && b.y == a.y + dy),
{
    let x_ok = if dx == 1 {
        a.x < b.x && b.x - a.x == 1
    } else if dx == 0 {
        a.x == b.x
    } else {
        b.x < a.x && a.x - b.x == 1
    };
    let y_ok = if dy == 1 {
        a.y < b.y && b.y - a.y == 1
    } else if dy == 0 {
        a.y == b.y
    } else {
        b.y < a.y && a.y - b.y == 1
    };
    x_ok && y_ok
}

/// Whether each cell follows the one before it by the step `(dx, dy)`.
fn runs(cells: &Vec<Cell>, dx: i8, dy: i8) -> (r: bool)
    requires
        -1 <= dx <= 1,
        -1 <= dy <= 1,
    ensures
        r == runs_along(cells@, dx as int, dy as int),
{
    let mut i: usize = 1;
    while i < cells.len()
        invariant
            1 <= i,
            -1 <= dx <= 1,
            -1 <= dy <= 1,
            forall|k: int|
                0 < k < i && k < cells@.len() ==> (#[trigger] cells@[k]).x == cells@[k - 1].x + dx
                    && cells@[k].y == cells@[k - 1].y + dy,
        decreases cells.len() - i,
    {
        if !follows(cells[i - 1], cells[i], dx, dy) {
            return false;
        }
        i += 1;
    }
    true
}

/// Whether the cells run along one row or one column in unit steps.
pub fn is_contiguous(cells: &Vec<Cell>) -> (r: bool)
    ensures
        r == contiguous(cells@),
{
    runs(cells, 1, 0) || runs(cells, -1, 0) || runs(cells, 0, 1) || runs(cells, 0, -1)
}

/// Checks length, bounds and contiguity, in that order.
pub fn check_shape(ship_type: ShipType, cells: &Vec<Cell>) -> (r: Option<GameError>)
    ensures
        r == shape_error(ship_type, cells@),
{
    if cells.len() != ship_type.length() {
        Some(GameError::WrongLength)
    } else if !cells_in_bounds(cells) {
        Some(GameError::OutOfBounds)
    } else if !is_contiguous(cells) {
        Some(GameError::NotContiguous)
    } else {
        None
    }
}

} // verus!
