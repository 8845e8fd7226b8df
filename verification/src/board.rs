//! The 10×10 grid of cell states that each player owns.

use vstd::prelude::*;

verus! {

pub const BOARD_SIZE: usize = 10;

/// Number of positions on a board.
pub const BOARD_CELLS: usize = 100;

/// A coordinate pair. It lies on the board when both parts are below `BOARD_SIZE`.
#[derive(Clone, Copy, Debug, PartialEq, Eq, Structural, Hash)]
pub struct Cell {
    pub x: u32,
    pub y: u32,
}

#[derive(Clone, Copy, Debug, PartialEq, Eq, Structural, Hash)]
pub enum CellState {
    Empty,
    Occupied,
    Hit,
    Miss,
}

impl Cell {
    pub open spec fn in_bounds(self) -> bool {
        self.x < BOARD_SIZE && self.y < BOARD_SIZE
    }

    /// Position of the cell in a row-major grid.
    pub open spec fn offset(self) -> int {
        self.y * BOARD_SIZE + self.x
    }

    pub fn new(x: u32, y: u32) -> (c: Cell)
        ensures
            c == (Cell { x, y }),
    {
        Cell { x, y }
    }

    pub fn is_in_bounds(&self) -> (r: bool)
        ensures
            r == self.in_bounds(),
    {
        self.x < BOARD_SIZE as u32 && self.y < BOARD_SIZE as u32
    }
}

impl CellState {
    /// What an opponent may see of a cell: a ship that was not hit looks like water.
    pub open spec fn concealed(self) -> CellState {
        if self == CellState::Occupied {
            CellState::Empty
        } else {
            self
        }
    }

    pub fn conceal(self) -> (r: CellState)
        ensures
            r == self.concealed(),
    {
        match self {
            CellState::Occupied => CellState::Empty,
            other => other,
        }
    }
}

/// A grid with every position empty.
pub open spec fn empty_grid() -> Seq<CellState> {
    Seq::new(BOARD_CELLS as nat, |i: int| CellState::Empty)
}

/// State of the grid at a cell.
pub open spec fn grid_at(grid: Seq<CellState>, cell: Cell) -> CellState {
    grid[cell.offset()]
}

/// The grid with one cell set to a state.
pub open spec fn grid_mark(grid: Seq<CellState>, cell: Cell, state: CellState) -> Seq<CellState> {
    grid.update(cell.offset(), state)
}

/// Number of positions of the grid that are in a given state.
pub open spec fn count_cells(grid: Seq<CellState>, state: CellState) -> nat
    decreases grid.len(),
{
    if grid.len() == 0 {
        0
    } else {
        count_cells(grid.drop_last(), state) + if grid.last() == state {
            1nat
        } else {
            0nat
        }
    }
}

/// The grid as an opponent may see it.
pub open spec fn concealed_grid(grid: Seq<CellState>) -> Seq<CellState> {
    Seq::new(grid.len(), |i: int| grid[i].concealed())
}

/// Distinct cells of the board have distinct offsets, all below `BOARD_CELLS`.
pub proof fn lemma_offset_injective(a: Cell, b: Cell)
    requires
        a.in_bounds(),
        b.in_bounds(),
    ensures
        0 <= a.offset() < BOARD_CELLS,
        a.offset() == b.offset() <==> a == b,
{
}

/// Setting one position moves one unit of count from its old state to its new one.
pub proof fn lemma_count_update(grid: Seq<CellState>, i: int, new: CellState, state: CellState)
    requires
        0 <= i < grid.len(),
    ensures
        count_cells(grid.update(i, new), state) + (if grid[i] == state { 1nat } else { 0nat })
            == count_cells(grid, state) + (if new == state { 1nat } else { 0nat }),
    decreases grid.len(),
{
    let updated = grid.update(i, new);
    if i == grid.len() - 1 {
        assert(updated.drop_last() =~= grid.drop_last());
    } else {
        assert(updated.drop_last() =~= grid.drop_last().update(i, new));
        lemma_count_update(grid.drop_last(), i, new, state);
    }
}

/// A state is absent from a grid exactly when its count is zero.
pub proof fn lemma_count_zero(grid: Seq<CellState>, state: CellState)
    ensures
        count_cells(grid, state) == 0 <==> (forall|i: int| 0 <= i < grid.len() ==> grid[i] != state),
        count_cells(grid, state) <= grid.len(),
    decreases grid.len(),
{
    if grid.len() > 0 {
        lemma_count_zero(grid.drop_last(), state);
        if count_cells(grid, state) == 0 {
            assert forall|i: int| 0 <= i < grid.len() implies grid[i] != state by {
                if i < grid.len() - 1 {
                    assert(grid.drop_last()[i] == grid[i]);
                }
            }
        } else if grid.last() != state {
            let j = choose|j: int| 0 <= j < grid.drop_last().len() && grid.drop_last()[j] == state;
            assert(grid[j] == state);
        }
    }
}

/// A concealed grid shows no ship, and shows every other state as it is.
pub proof fn lemma_concealed_grid(grid: Seq<CellState>)
    ensures
        count_cells(concealed_grid(grid), CellState::Occupied) == 0,
        count_cells(concealed_grid(grid), CellState::Hit) == count_cells(grid, CellState::Hit),
        count_cells(concealed_grid(grid), CellState::Miss) == count_cells(grid, CellState::Miss),
    decreases grid.len(),
{
    if grid.len() > 0 {
        assert(concealed_grid(grid).drop_last() =~= concealed_grid(grid.drop_last()));
        lemma_concealed_grid(grid.drop_last());
    }
}

/// One player's board.
#[derive(Debug)]
pub struct Board {
    cells: Vec<CellState>,
}

impl View for Board {
    type V = Seq<CellState>;

    closed spec fn view(&self) -> Seq<CellState> {
        self.cells@
    }
}

impl Board {
    /// A board has exactly `BOARD_CELLS` positions.
    pub open spec fn wf(&self) -> bool {
        self@.len() == BOARD_CELLS
    }

    /// A board with every position empty.
    pub fn new() -> (b: Board)
        ensures
            b.wf(),
            b@ == empty_grid(),
    {
        let mut cells: Vec<CellState> = Vec::new();
        let mut i: usize = 0;
        while i < BOARD_CELLS
            invariant
                i <= BOARD_CELLS,
                cells@.len() == i,
                forall|k: int| 0 <= k < i ==> cells@[k] == CellState::Empty,
            decreases BOARD_CELLS - i,
        {
            cells.push(CellState::Empty);
            i += 1;
        }
        assert(cells@ =~= empty_grid());
        Board { cells }
    }

    /// State of a cell, or `None` for a cell off the board.
    pub fn get(&self, cell: Cell) -> (r: Option<CellState>)
        requires
            self.wf(),
        ensures
            r == (if cell.in_bounds() {
                Some(grid_at(self@, cell))
            } else {
                None
            }),
    {
        if cell.is_in_bounds() {
            Some(self.at(cell))
        } else {
            None
        }
    }

    /// State of a cell of the board.
    pub fn at(&self, cell: Cell) -> (r: CellState)
        requires
            self.wf(),
            cell.in_bounds(),
        ensures
            r == grid_at(self@, cell),
    {
        let i: usize = cell.y as usize * BOARD_SIZE + cell.x as usize;
        self.cells[i]
    }

    /// Sets a cell of the board to a state.
    pub fn set(&mut self, cell: Cell, state: CellState)
        requires
            old(self).wf(),
            cell.in_bounds(),
        ensures
            final(self).wf(),
            final(self)@ == grid_mark(old(self)@, cell, state),
    {
        let i: usize = cell.y as usize * BOARD_SIZE + cell.x as usize;
        self.cells.set(i, state);
    }

    /// Number of positions in a given state.
    pub fn count(&self, state: CellState) -> (n: usize)
        requires
            self.wf(),
        ensures
            n == count_cells(self@, state),
    {
        let mut n: usize = 0;
        let mut i: usize = 0;
        while i < BOARD_CELLS
            invariant
                i <= BOARD_CELLS,
                self.cells@.len() == BOARD_CELLS,
                n == count_cells(self.cells@.take(i as int), state),
                n <= i,
            decreases BOARD_CELLS - i,
        {
            proof {
                assert(self.cells@.take(i + 1).drop_last() =~= self.cells@.take(i as int));
            }
            if self.cells[i] == state {
                n += 1;
            }
            i += 1;
        }
        proof {
            assert(self.cells@.take(BOARD_CELLS as int) =~= self.cells@);
        }
        n
    }

    /// A copy of the board.
    pub fn snapshot(&self) -> (b: Board)
        requires
            self.wf(),
        ensures
            b@ == self@,
    {
        let mut cells: Vec<CellState> = Vec::new();
        let mut i: usize = 0;
        while i < BOARD_CELLS
            invariant
                i <= BOARD_CELLS,
                self.cells@.len() == BOARD_CELLS,
                cells@.len() == i,
                forall|k: int| 0 <= k < i ==> cells@[k] == self.cells@[k],
            decreases BOARD_CELLS - i,
        {
            cells.push(self.cells[i]);
            i += 1;
        }
        assert(cells@ =~= self.cells@);
        Board { cells }
    }

    /// A copy of the board as an opponent may see it.
    pub fn concealed(&self) -> (b: Board)
        requires
            self.wf(),
        ensures
            b@ == concealed_grid(self@),
    {
        let mut cells: Vec<CellState> = Vec::new();
        let mut i: usize = 0;
        while i < BOARD_CELLS
            invariant
                i <= BOARD_CELLS,
                self.cells@.len() == BOARD_CELLS,
                cells@.len() == i,
                forall|k: int| 0 <= k < i ==> cells@[k] == self.cells@[k].concealed(),
            decreases BOARD_CELLS - i,
        {
            cells.push(self.cells[i].conceal());
            i += 1;
        }
        assert(cells@ =~= concealed_grid(self.cells@));
        Board { cells }
    }
}

} // verus!
