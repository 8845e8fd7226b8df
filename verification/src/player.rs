//! One player's side of the match: identifier, fleet, own board and guess log.

use crate::board::count_cells;
use crate::board::empty_grid;
use crate::board::grid_at;
use crate::board::grid_mark;
use crate::board::lemma_count_update;
use crate::board::lemma_count_zero;
use crate::board::lemma_offset_injective;
use crate::board::Board;
use crate::board::Cell;
use crate::board::CellState;
use crate::board::BOARD_CELLS;
use crate::catalog::ShipType;
use crate::catalog::FLEET_SIZE;
use crate::error::GameError;
use crate::fleet::fleet_cells;
use crate::fleet::Fleet;
use crate::fleet::FleetModel;
use crate::ship::all_in_bounds;
use crate::ship::check_shape;
use crate::ship::lemma_contiguous_distinct;
use crate::ship::shape_error;
use crate::ship::Ship;
use vstd::prelude::*;

verus! {

/// What a guess finds at a cell.
#[derive(Clone, Copy, Debug, PartialEq, Eq, Structural, Hash)]
pub enum Outcome {
    Hit,
    Miss,
}

/// Whether one of the cells sits at the given offset of the grid.
pub open spec fn covers(cells: Seq<Cell>, offset: int) -> bool {
    exists|k: int| 0 <= k < cells.len() && (#[trigger] cells[k]).offset() == offset
}

/// The grid with every one of the cells set to a state.
pub open spec fn grid_mark_all(grid: Seq<CellState>, cells: Seq<Cell>, state: CellState) -> Seq<
    CellState,
> {
    Seq::new(
        grid.len(),
        |i: int|
            if covers(cells, i) {
                state
            } else {
                grid[i]
            },
    )
}

/// Whether one of the cells is covered by a ship on the grid.
pub open spec fn overlaps(grid: Seq<CellState>, cells: Seq<Cell>) -> bool {
    exists|k: int| 0 <= k < cells.len() && grid_at(grid, #[trigger] cells[k]) == CellState::Occupied
}

/// The mathematical value of a player's state.
pub struct PlayerModel {
    pub id: Seq<char>,
    pub fleet: FleetModel,
    pub board: Seq<CellState>,
    pub guesses: Seq<Cell>,
}

impl PlayerModel {
    /// A player that has placed no ship and made no guess.
    pub open spec fn fresh(id: Seq<char>) -> PlayerModel {
        PlayerModel { id, fleet: Map::empty(), board: empty_grid(), guesses: Seq::empty() }
    }

    /// Whether a placed ship covers the cell.
    pub open spec fn ship_at(self, cell: Cell) -> bool {
        exists|t: ShipType, k: int|
            self.fleet.dom().contains(t) && 0 <= k < self.fleet[t].len() && (
            #[trigger] self.fleet[t][k]) == cell
    }

    /// No two placed ships share a cell.
    pub open spec fn ships_disjoint(self) -> bool {
        forall|t1: ShipType, k1: int, t2: ShipType, k2: int|
            self.fleet.dom().contains(t1) && self.fleet.dom().contains(t2) && t1 != t2 && 0 <= k1
                < self.fleet[t1].len() && 0 <= k2 < self.fleet[t2].len() ==> (
            #[trigger] self.fleet[t1][k1]) != (#[trigger] self.fleet[t2][k2])
    }

    /// The board has its size; every placed ship has a sound shape, no two ships
    /// share a cell, and the cells of the board that are occupied or hit are exactly
    /// the cells of the ships; the board holds as many of them as the fleet covers;
    /// and the guess log holds distinct cells of the board.
    pub open spec fn wf(self) -> bool {
        &&& self.board.len() == BOARD_CELLS
        &&& forall|t: ShipType| #[trigger]
            self.fleet.dom().contains(t) ==> shape_error(t, self.fleet[t]) is None
        &&& forall|t: ShipType, k: int|
            self.fleet.dom().contains(t) && 0 <= k < self.fleet[t].len() ==> {
                let s = grid_at(self.board, #[trigger] self.fleet[t][k]);
                s == CellState::Occupied || s == CellState::Hit
            }
        &&& self.ships_disjoint()
        &&& forall|c: Cell|
            #![trigger grid_at(self.board, c)]
            c.in_bounds() && (grid_at(self.board, c) == CellState::Occupied || grid_at(
                self.board,
                c,
            ) == CellState::Hit) ==> self.ship_at(c)
        &&& count_cells(self.board, CellState::Occupied) + count_cells(self.board, CellState::Hit)
            == fleet_cells(self.fleet)
        &&& all_in_bounds(self.guesses)
        &&& self.guesses.no_duplicates()
    }

    /// Nothing was guessed yet, by the player or against the player.
    pub open spec fn pristine(self) -> bool {
        &&& self.guesses.len() == 0
        &&& count_cells(self.board, CellState::Hit) == 0
        &&& count_cells(self.board, CellState::Miss) == 0
    }

    /// The rule that a placement breaks, the first in the order duplicate type,
    /// length, bounds, contiguity, overlap; `None` when the placement is accepted.
    pub open spec fn placement_error(self, ship_type: ShipType, cells: Seq<Cell>) -> Option<
        GameError,
    > {
        if self.fleet.dom().contains(ship_type) {
            Some(GameError::DuplicateShipType)
        } else if shape_error(ship_type, cells) is Some {
            shape_error(ship_type, cells)
        } else if overlaps(self.board, cells) {
            Some(GameError::Overlap)
        } else {
            None
        }
    }

    /// The player after a ship is placed: its cells occupied, the ship in the fleet.
    pub open spec fn with_ship(self, ship_type: ShipType, cells: Seq<Cell>) -> PlayerModel {
        PlayerModel {
            fleet: self.fleet.insert(ship_type, cells),
            board: grid_mark_all(self.board, cells, CellState::Occupied),
            ..self
        }
    }

    /// What a guess at the cell finds on this player's board.
    pub open spec fn outcome_at(self, cell: Cell) -> Outcome {
        if grid_at(self.board, cell) == CellState::Occupied {
            Outcome::Hit
        } else {
            Outcome::Miss
        }
    }

    /// The player after an opponent's guess at the cell: a ship cell becomes a hit,
    /// any other cell a miss.
    pub open spec fn struck(self, cell: Cell) -> PlayerModel {
        let mark = if self.outcome_at(cell) == Outcome::Hit {
            CellState::Hit
        } else {
            CellState::Miss
        };
        PlayerModel { board: grid_mark(self.board, cell, mark), ..self }
    }

    /// The player after logging a guess of their own.
    pub open spec fn with_guess(self, cell: Cell) -> PlayerModel {
        PlayerModel { guesses: self.guesses.push(cell), ..self }
    }

    /// Every cell of every placed ship is hit.
    pub open spec fn sunk(self) -> bool {
        forall|t: ShipType, k: int|
            self.fleet.dom().contains(t) && 0 <= k < self.fleet[t].len() ==> grid_at(
                self.board,
                #[trigger] self.fleet[t][k],
            ) == CellState::Hit
    }
}

/// Marking one more cell is an update of the grid marked so far.
pub proof fn lemma_mark_all_step(grid: Seq<CellState>, cells: Seq<Cell>, j: int, state: CellState)
    requires
        0 <= j < cells.len(),
        0 <= cells[j].offset() < grid.len(),
    ensures
        grid_mark_all(grid, cells.take(j + 1), state) == grid_mark_all(
            grid,
            cells.take(j),
            state,
        ).update(cells[j].offset(), state),
{
    let before = cells.take(j);
    let after = cells.take(j + 1);
    assert forall|i: int| 0 <= i < grid.len() implies covers(after, i) == (covers(before, i) || i
        == cells[j].offset()) by {
        if covers(after, i) {
            let k = choose|k: int| 0 <= k < after.len() && (#[trigger] after[k]).offset() == i;
            if k < j {
                assert(before[k].offset() == i);
            }
        }
        if covers(before, i) {
            let k = choose|k: int| 0 <= k < before.len() && (#[trigger] before[k]).offset() == i;
            assert(after[k].offset() == i);
        }
        if i == cells[j].offset() {
            assert(after[j].offset() == i);
        }
    }
    assert(grid_mark_all(grid, after, state) =~= grid_mark_all(grid, before, state).update(
        cells[j].offset(),
        state,
    ));
}

/// Occupying `j` distinct empty cells adds `j` to the count of occupied cells and
/// leaves the counts of hits and misses as they were.
pub proof fn lemma_occupy_counts(grid: Seq<CellState>, cells: Seq<Cell>, j: int)
    requires
        grid.len() == BOARD_CELLS,
        all_in_bounds(cells),
        cells.no_duplicates(),
        forall|k: int| 0 <= k < cells.len() ==> grid_at(grid, #[trigger] cells[k]) == CellState::Empty,
        0 <= j <= cells.len(),
    ensures
        count_cells(grid_mark_all(grid, cells.take(j), CellState::Occupied), CellState::Occupied)
            == count_cells(grid, CellState::Occupied) + j,
        count_cells(grid_mark_all(grid, cells.take(j), CellState::Occupied), CellState::Hit)
            == count_cells(grid, CellState::Hit),
        count_cells(grid_mark_all(grid, cells.take(j), CellState::Occupied), CellState::Miss)
            == count_cells(grid, CellState::Miss),
    decreases j,
{
    if j == 0 {
        assert(grid_mark_all(grid, cells.take(0), CellState::Occupied) =~= grid);
    } else {
        let i = j - 1;
        lemma_occupy_counts(grid, cells, i);
        let before = grid_mark_all(grid, cells.take(i), CellState::Occupied);
        assert(cells[i].in_bounds());
        lemma_mark_all_step(grid, cells, i, CellState::Occupied);
        assert(!covers(cells.take(i), cells[i].offset())) by {
            if covers(cells.take(i), cells[i].offset()) {
                let k = choose|k: int|
                    0 <= k < cells.take(i).len() && (#[trigger] cells.take(i)[k]).offset()
                        == cells[i].offset();
                assert(cells[k].in_bounds());
                lemma_offset_injective(cells[k], cells[i]);
            }
        }
        assert(before[cells[i].offset()] == CellState::Empty);
        lemma_count_update(before, cells[i].offset(), CellState::Occupied, CellState::Occupied);
        lemma_count_update(before, cells[i].offset(), CellState::Occupied, CellState::Hit);
        lemma_count_update(before, cells[i].offset(), CellState::Occupied, CellState::Miss);
    }
}

/// An accepted placement on a board without hits or misses keeps the player well
/// formed and adds the ship's length to the occupied cells.
pub proof fn lemma_with_ship(p: PlayerModel, ship_type: ShipType, cells: Seq<Cell>)
    requires
        p.wf(),
        p.pristine(),
        p.placement_error(ship_type, cells) is None,
    ensures
        p.with_ship(ship_type, cells).wf(),
        p.with_ship(ship_type, cells).pristine(),
        count_cells(p.with_ship(ship_type, cells).board, CellState::Occupied) == count_cells(
            p.board,
            CellState::Occupied,
        ) + ship_type.spec_length(),
        fleet_cells(p.with_ship(ship_type, cells).fleet) == fleet_cells(p.fleet)
            + ship_type.spec_length(),
{
    let q = p.with_ship(ship_type, cells);
    lemma_contiguous_distinct(cells);
    lemma_count_zero(p.board, CellState::Hit);
    lemma_count_zero(p.board, CellState::Miss);
    assert forall|k: int| 0 <= k < cells.len() implies grid_at(p.board, #[trigger] cells[k])
        == CellState::Empty by {
        lemma_offset_injective(cells[k], cells[k]);
        let s = p.board[cells[k].offset()];
        assert(s != CellState::Hit);
        assert(s != CellState::Miss);
    }
    lemma_occupy_counts(p.board, cells, cells.len() as int);
    assert(cells.take(cells.len() as int) =~= cells);
    assert forall|t: ShipType| #[trigger] q.fleet.dom().contains(t) implies shape_error(
        t,
        q.fleet[t],
    ) is None by {
        if t != ship_type {
            assert(p.fleet.dom().contains(t));
        }
    }
    assert forall|t: ShipType, k: int|
        q.fleet.dom().contains(t) && 0 <= k < q.fleet[t].len() implies {
        let s = grid_at(q.board, #[trigger] q.fleet[t][k]);
        s == CellState::Occupied || s == CellState::Hit
    } by {
        let c = q.fleet[t][k];
        if t == ship_type {
            assert(cells[k].in_bounds());
            lemma_offset_injective(c, c);
            assert(covers(cells, c.offset()));
        } else {
            assert(p.fleet.dom().contains(t));
            assert(shape_error(t, p.fleet[t]) is None);
            assert(p.fleet[t][k].in_bounds());
            lemma_offset_injective(c, c);
            let s = grid_at(p.board, p.fleet[t][k]);
            assert(s == CellState::Occupied || s == CellState::Hit);
        }
    }
    assert forall|t1: ShipType, k1: int, t2: ShipType, k2: int|
        q.fleet.dom().contains(t1) && q.fleet.dom().contains(t2) && t1 != t2 && 0 <= k1
            < q.fleet[t1].len() && 0 <= k2 < q.fleet[t2].len() implies (
    #[trigger] q.fleet[t1][k1]) != (#[trigger] q.fleet[t2][k2]) by {
        if t1 == ship_type {
            let s = grid_at(p.board, p.fleet[t2][k2]);
            assert(s == CellState::Occupied || s == CellState::Hit);
            assert(grid_at(p.board, cells[k1]) == CellState::Empty);
        } else if t2 == ship_type {
            let s = grid_at(p.board, p.fleet[t1][k1]);
            assert(s == CellState::Occupied || s == CellState::Hit);
            assert(grid_at(p.board, cells[k2]) == CellState::Empty);
        } else {
            assert(p.fleet[t1][k1] != p.fleet[t2][k2]);
        }
    }
    assert forall|c: Cell|
        #![trigger grid_at(q.board, c)]
        c.in_bounds() && (grid_at(q.board, c) == CellState::Occupied || grid_at(q.board, c)
            == CellState::Hit) implies q.ship_at(c) by {
        lemma_offset_injective(c, c);
        if covers(cells, c.offset()) {
            let k = choose|k: int| 0 <= k < cells.len() && (#[trigger] cells[k]).offset()
                == c.offset();
            assert(cells[k].in_bounds());
            lemma_offset_injective(cells[k], c);
            assert(q.fleet.dom().contains(ship_type) && q.fleet[ship_type][k] == c);
        } else {
            assert(grid_at(q.board, c) == grid_at(p.board, c));
            assert(p.ship_at(c));
            let (t, k) = choose|t: ShipType, k: int|
                p.fleet.dom().contains(t) && 0 <= k < p.fleet[t].len() && (
                #[trigger] p.fleet[t][k]) == c;
            assert(t != ship_type);
            assert(q.fleet.dom().contains(t) && q.fleet[t][k] == c);
        }
    }
}

/// A guess at a cell that was not struck before keeps the struck player well formed.
pub proof fn lemma_struck(p: PlayerModel, cell: Cell)
    requires
        p.wf(),
        cell.in_bounds(),
        grid_at(p.board, cell) == CellState::Empty || grid_at(p.board, cell) == CellState::Occupied,
    ensures
        p.struck(cell).wf(),
{
    let q = p.struck(cell);
    lemma_offset_injective(cell, cell);
    let mark = if p.outcome_at(cell) == Outcome::Hit {
        CellState::Hit
    } else {
        CellState::Miss
    };
    lemma_count_update(p.board, cell.offset(), mark, CellState::Occupied);
    lemma_count_update(p.board, cell.offset(), mark, CellState::Hit);
    assert forall|t: ShipType, k: int|
        q.fleet.dom().contains(t) && 0 <= k < q.fleet[t].len() implies {
        let s = grid_at(q.board, #[trigger] q.fleet[t][k]);
        s == CellState::Occupied || s == CellState::Hit
    } by {
        let c = p.fleet[t][k];
        assert(shape_error(t, p.fleet[t]) is None);
        assert(c.in_bounds());
        lemma_offset_injective(c, cell);
        let s = grid_at(p.board, c);
        assert(s == CellState::Occupied || s == CellState::Hit);
    }
    assert(q.ships_disjoint());
    assert forall|c: Cell|
        #![trigger grid_at(q.board, c)]
        c.in_bounds() && (grid_at(q.board, c) == CellState::Occupied || grid_at(q.board, c)
            == CellState::Hit) implies q.ship_at(c) by {
        lemma_offset_injective(c, cell);
        let s = grid_at(p.board, c);
        assert(s == CellState::Occupied || s == CellState::Hit);
        assert(p.ship_at(c));
    }
}

/// Logging a new guess on the board keeps the guessing player well formed.
pub proof fn lemma_with_guess(p: PlayerModel, cell: Cell)
    requires
        p.wf(),
        cell.in_bounds(),
        !p.guesses.contains(cell),
    ensures
        p.with_guess(cell).wf(),
{
    let q = p.with_guess(cell);
    assert forall|i: int, j: int|
        0 <= i < q.guesses.len() && 0 <= j < q.guesses.len() && i != j implies q.guesses[i]
        != q.guesses[j] by {
        if i < p.guesses.len() {
            assert(p.guesses.contains(p.guesses[i]));
        }
        if j < p.guesses.len() {
            assert(p.guesses.contains(p.guesses[j]));
        }
    }
    assert(q.ships_disjoint());
    assert forall|c: Cell|
        #![trigger grid_at(q.board, c)]
        c.in_bounds() && (grid_at(q.board, c) == CellState::Occupied || grid_at(q.board, c)
            == CellState::Hit) implies q.ship_at(c) by {
        assert(p.ship_at(c));
    }
}

/// A player who has done nothing yet is well formed.
pub proof fn lemma_fresh(id: Seq<char>)
    ensures
        PlayerModel::fresh(id).wf(),
        PlayerModel::fresh(id).pristine(),
        count_cells(PlayerModel::fresh(id).board, CellState::Occupied) == 0,
{
    lemma_count_zero(empty_grid(), CellState::Occupied);
    lemma_count_zero(empty_grid(), CellState::Hit);
    lemma_count_zero(empty_grid(), CellState::Miss);
    assert forall|c: Cell| c.in_bounds() implies #[trigger] grid_at(empty_grid(), c)
        == CellState::Empty by {
        lemma_offset_injective(c, c);
    }
}

/// One player's state.
#[derive(Debug)]
pub struct PlayerState {
    id: String,
    ships: Fleet,
    board: Board,
    guesses: Vec<Cell>,
}

impl View for PlayerState {
    type V = PlayerModel;

    closed spec fn view(&self) -> PlayerModel {
        PlayerModel {
            id: self.id@,
            fleet: self.ships@,
            board: self.board@,
            guesses: self.guesses@,
        }
    }
}

impl PlayerState {
    /// The fleet and the board are laid out as their types demand.
    pub closed spec fn rep_ok(&self) -> bool {
        self.ships.wf() && self.board.wf()
    }

    pub open spec fn wf(&self) -> bool {
        self.rep_ok() && self@.wf()
    }

    /// A player with the given identifier, an empty fleet, an empty board and no guess.
    pub fn new(id: String) -> (p: Self)
        ensures
            p.wf(),
            p@ == PlayerModel::fresh(id@),
    {
        proof {
            lemma_fresh(id@);
        }
        Self { id, ships: Fleet::new(), board: Board::new(), guesses: Vec::new() }
    }

    pub fn id(&self) -> (r: &String)
        ensures
            r@ == self@.id,
    {
        &self.id
    }

    pub fn fleet(&self) -> (r: &Fleet)
        ensures
            r@ == self@.fleet,
            self.rep_ok() ==> r.wf(),
    {
        &self.ships
    }

    pub fn board(&self) -> (r: &Board)
        ensures
            r@ == self@.board,
            self.rep_ok() ==> r.wf(),
    {
        &self.board
    }

    pub fn guesses(&self) -> (r: &Vec<Cell>)
        ensures
            r@ == self@.guesses,
    {
        &self.guesses
    }

    /// Whether the player already guessed the cell.
    pub fn has_guessed(&self, cell: Cell) -> (r: bool)
        ensures
            r == self@.guesses.contains(cell),
    {
        let mut i: usize = 0;
        while i < self.guesses.len()
            invariant
                i <= self.guesses@.len(),
                forall|k: int| 0 <= k < i ==> self.guesses@[k] != cell,
            decreases self.guesses.len() - i,
        {
            if self.guesses[i] == cell {
                return true;
            }
            i += 1;
        }
        false
    }

    /// Whether one of the cells is covered by a ship of the player.
    fn overlaps_ship(&self, cells: &Vec<Cell>) -> (r: bool)
        requires
            self.rep_ok(),
            all_in_bounds(cells@),
        ensures
            r == overlaps(self@.board, cells@),
    {
        let mut i: usize = 0;
        while i < cells.len()
            invariant
                i <= cells@.len(),
                self.rep_ok(),
                all_in_bounds(cells@),
                forall|k: int|
                    0 <= k < i ==> grid_at(self@.board, #[trigger] cells@[k]) != CellState::Occupied,
            decreases cells.len() - i,
        {
            if self.board.at(cells[i]) == CellState::Occupied {
                return true;
            }
            i += 1;
        }
        false
    }

    /// Holds a placement against the rules without changing anything.
    pub fn check_placement(&self, ship_type: ShipType, cells: &Vec<Cell>) -> (r: Option<GameError>)
        requires
            self.rep_ok(),
        ensures
            r == self@.placement_error(ship_type, cells@),
    {
        if self.ships.contains(ship_type) {
            return Some(GameError::DuplicateShipType);
        }
        match check_shape(ship_type, cells) {
            Some(e) => Some(e),
            None => {
                if self.overlaps_ship(cells) {
                    Some(GameError::Overlap)
                } else {
                    None
                }
            },
        }
    }

    /// Commits a placement that `check_placement` accepted.
    pub(crate) fn place(&mut self, ship: Ship)
        requires
            old(self).wf(),
            old(self)@.pristine(),
            old(self)@.placement_error(ship.ship_type, ship.cells@) is None,
        ensures
            final(self).wf(),
            final(self)@ == old(self)@.with_ship(ship.ship_type, ship.cells@),
    {
        let n = ship.cells.len();
        let mut i: usize = 0;
        while i < n
            invariant
                i <= n,
                n == ship.cells@.len(),
                all_in_bounds(ship.cells@),
                self.board.wf(),
                self.ships == old(self).ships,
                self.id == old(self).id,
                self.guesses == old(self).guesses,
                self.board@ == grid_mark_all(
                    old(self).board@,
                    ship.cells@.take(i as int),
                    CellState::Occupied,
                ),
            decreases n - i,
        {
            proof {
                lemma_offset_injective(ship.cells@[i as int], ship.cells@[i as int]);
                lemma_mark_all_step(old(self).board@, ship.cells@, i as int, CellState::Occupied);
            }
            self.board.set(ship.cells[i], CellState::Occupied);
            i += 1;
        }
        proof {
            assert(ship.cells@.take(n as int) =~= ship.cells@);
            lemma_with_ship(old(self)@, ship.ship_type, ship.cells@);
        }
        self.ships.insert(ship);
    }

    /// Whether every cell of every placed ship is hit.
    pub fn is_sunk(&self) -> (r: bool)
        requires
            self.wf(),
        ensures
            r == self@.sunk(),
    {
        let mut slot: usize = 0;
        while slot < FLEET_SIZE
            invariant
                slot <= FLEET_SIZE,
                self.wf(),
                forall|t: ShipType, k: int|
                    t.spec_slot() < slot && self@.fleet.dom().contains(t) && 0 <= k
                        < self@.fleet[t].len() ==> grid_at(
                        self@.board,
                        #[trigger] self@.fleet[t][k],
                    ) == CellState::Hit,
            decreases FLEET_SIZE - slot,
        {
            let ship_type = ShipType::at(slot);
            match self.ships.get(ship_type) {
                None => {},
                Some(ship) => {
                    assert(shape_error(ship_type, self@.fleet[ship_type]) is None);
                    let mut i: usize = 0;
                    while i < ship.cells.len()
                        invariant
                            i <= ship.cells@.len(),
                            self.rep_ok(),
                            all_in_bounds(ship.cells@),
                            ship.cells@ == self@.fleet[ship_type],
                            self@.fleet.dom().contains(ship_type),
                            forall|k: int|
                                0 <= k < i ==> grid_at(self@.board, #[trigger] ship.cells@[k])
                                    == CellState::Hit,
                        decreases ship.cells.len() - i,
                    {
                        if self.board.at(ship.cells[i]) != CellState::Hit {
                            assert(grid_at(self@.board, self@.fleet[ship_type][i as int])
                                != CellState::Hit);
                            return false;
                        }
                        i += 1;
                    }
                },
            }
            assert forall|t: ShipType, k: int|
                t.spec_slot() < slot + 1 && self@.fleet.dom().contains(t) && 0 <= k
                    < self@.fleet[t].len() implies grid_at(
                self@.board,
                #[trigger] self@.fleet[t][k],
            ) == CellState::Hit by {
                if t.spec_slot() == slot {
                    assert(t == ship_type);
                }
            }
            slot += 1;
        }
        true
    }

    /// Resolves an opponent's guess on this player's board.
    pub(crate) fn strike(&mut self, cell: Cell) -> (r: Outcome)
        requires
            old(self).rep_ok(),
            cell.in_bounds(),
        ensures
            final(self).rep_ok(),
            final(self)@ == old(self)@.struck(cell),
            r == old(self)@.outcome_at(cell),
    {
        if self.board.at(cell) == CellState::Occupied {
            self.board.set(cell, CellState::Hit);
            Outcome::Hit
        } else {
            self.board.set(cell, CellState::Miss);
            Outcome::Miss
        }
    }

    /// Appends a cell to the player's guess log.
    pub(crate) fn log_guess(&mut self, cell: Cell)
        requires
            old(self).rep_ok(),
        ensures
            final(self).rep_ok(),
            final(self)@ == old(self)@.with_guess(cell),
    {
        self.guesses.push(cell);
    }
}

} // verus!
