//! The match as a mathematical value, and its transitions.
//!
//! Every operation of the engine is stated here as a pair of functions of the state
//! before it: the error it is rejected with, if any, and the state after it.
//!
//! Rules that are fixed here:
//! - Seats are filled in the order of registration, and a player who leaves frees
//!   the seat; the player in the first seat at the moment both fleets are complete
//!   moves first.
//! - A player who leaves while the match is in progress forfeits: the opponent wins.
//! - A registration is refused only while both seats are taken, or under an
//!   identifier that a seated player has. A free seat can be taken in every phase.
//! - A match that has a winner stays finished. A player seated after the end may
//!   place ships, look at the match and leave; no guess is accepted any more, and
//!   a second complete fleet does not start the match again.
//! - A guess is refused with `NotInProgress` during setup and with
//!   `GameAlreadyFinished` after the end.
//! - A placement under an identifier that no seated player has is refused with
//!   `UnknownPlayer`; a guess under such an identifier with `NotYourTurn`.

use crate::board::concealed_grid;
use crate::board::empty_grid;
use crate::board::grid_at;
use crate::board::lemma_count_zero;
use crate::board::lemma_offset_injective;
use crate::board::Cell;
use crate::board::CellState;
use crate::catalog::ShipType;
use crate::error::GameError;
use crate::fleet::fleet_complete;
use crate::player::lemma_fresh;
use crate::player::lemma_struck;
use crate::player::lemma_with_guess;
use crate::player::lemma_with_ship;
use crate::player::Outcome;
use crate::player::PlayerModel;
use crate::ship::shape_error;
use vstd::prelude::*;

verus! {

/// A notification of one state transition.
pub enum EventModel {
    PlayerJoined { player: Seq<char> },
    PlayerLeft { player: Seq<char> },
    TurnChanged { player: Seq<char> },
    GuessMade { player: Seq<char>, cell: Cell, outcome: Outcome },
    GameOver { winner: Seq<char> },
}

pub enum PhaseModel {
    Setup,
    InProgress,
    Finished { winner: Seq<char> },
}

/// What the guesser learns from an accepted guess.
pub struct GuessReport {
    pub outcome: Outcome,
    pub game_over: bool,
    pub winner: Option<Seq<char>>,
}

/// What one player may see of the match.
pub struct GameViewModel {
    pub own_board: Seq<CellState>,
    pub opponent_board: Seq<CellState>,
    pub phase: PhaseModel,
    pub turn: Option<Seq<char>>,
}

/// The target's board shows a hit or a miss exactly at the cells the guesser guessed.
pub open spec fn tracks(guesser: PlayerModel, target: PlayerModel) -> bool {
    forall|c: Cell|
        #![trigger guesser.guesses.contains(c)]
        #![trigger grid_at(target.board, c)]
        c.in_bounds() ==> (guesser.guesses.contains(c) <==> (grid_at(target.board, c)
            == CellState::Hit || grid_at(target.board, c) == CellState::Miss))
}

/// The mathematical value of a match.
pub struct GameModel {
    /// The seated players, in the order of registration.
    pub players: Seq<PlayerModel>,
    /// The player who may guess; it has a meaning only while the match is in progress.
    pub turn: Option<Seq<char>>,
    pub phase: PhaseModel,
    /// The events that were emitted and not yet taken.
    pub events: Seq<EventModel>,
}

impl GameModel {
    /// A match without players, in setup.
    pub open spec fn initial() -> GameModel {
        GameModel {
            players: Seq::empty(),
            turn: None,
            phase: PhaseModel::Setup,
            events: Seq::empty(),
        }
    }

    /// The seat of the player with an identifier.
    pub open spec fn seat_of(self, id: Seq<char>) -> Option<int> {
        if self.players.len() > 0 && self.players[0].id == id {
            Some(0int)
        } else if self.players.len() > 1 && self.players[1].id == id {
            Some(1int)
        } else {
            None
        }
    }

    /// Both seats are taken and both fleets are complete.
    pub open spec fn everyone_ready(self) -> bool {
        &&& self.players.len() == 2
        &&& fleet_complete(self.players[0].fleet)
        &&& fleet_complete(self.players[1].fleet)
    }

    pub open spec fn wf(self) -> bool {
        &&& self.players.len() <= 2
        &&& forall|i: int| 0 <= i < self.players.len() ==> (#[trigger] self.players[i]).wf()
        &&& (self.players.len() == 2 ==> self.players[0].id != self.players[1].id)
        &&& match self.phase {
            PhaseModel::Setup => {
                &&& self.turn is None
                &&& forall|i: int|
                    0 <= i < self.players.len() ==> (#[trigger] self.players[i]).pristine()
            },
            PhaseModel::InProgress => {
                &&& self.everyone_ready()
                &&& (self.turn == Some(self.players[0].id) || self.turn == Some(
                    self.players[1].id,
                ))
                &&& tracks(self.players[0], self.players[1])
                &&& tracks(self.players[1], self.players[0])
                &&& !self.players[0].sunk()
                &&& !self.players[1].sunk()
            },
            PhaseModel::Finished { .. } => forall|i: int|
                0 <= i < self.players.len() ==> fleet_complete(
                    (#[trigger] self.players[i]).fleet,
                ) || self.players[i].pristine(),
        }
    }

    /// Why a registration under an identifier is rejected, if it is. The phase plays
    /// no part: a free seat can be taken at any time.
    pub open spec fn registration_error(self, id: Seq<char>) -> Option<GameError> {
        if self.players.len() >= 2 {
            Some(GameError::GameFull)
        } else if self.seat_of(id) is Some {
            Some(GameError::IdentifierTaken)
        } else {
            None
        }
    }

    /// The match after a player registered: seated last, and announced.
    pub open spec fn after_registration(self, id: Seq<char>) -> GameModel {
        GameModel {
            players: self.players.push(PlayerModel::fresh(id)),
            events: self.events.push(EventModel::PlayerJoined { player: id }),
            ..self
        }
    }

    /// Why the removal of a player is rejected, if it is.
    pub open spec fn removal_error(self, id: Seq<char>) -> Option<GameError> {
        if self.seat_of(id) is None {
            Some(GameError::UnknownPlayer)
        } else {
            None
        }
    }

    /// The match after a player left. While the match is in progress the player
    /// forfeits and the opponent wins.
    pub open spec fn after_removal(self, id: Seq<char>) -> GameModel {
        let seat = self.seat_of(id).unwrap();
        let players = self.players.remove(seat);
        let events = self.events.push(EventModel::PlayerLeft { player: id });
        if self.phase is InProgress {
            let winner = self.players[1 - seat].id;
            GameModel {
                players,
                phase: PhaseModel::Finished { winner },
                events: events.push(EventModel::GameOver { winner }),
                ..self
            }
        } else {
            GameModel { players, events, ..self }
        }
    }

    /// Why a placement is rejected, if it is.
    pub open spec fn placement_error(
        self,
        id: Seq<char>,
        ship_type: ShipType,
        cells: Seq<Cell>,
    ) -> Option<GameError> {
        match self.seat_of(id) {
            None => Some(GameError::UnknownPlayer),
            Some(seat) => self.players[seat].placement_error(ship_type, cells),
        }
    }

    /// The match after an accepted placement. When it completes the second fleet
    /// during setup the match starts, and the player in the first seat gets the turn.
    pub open spec fn after_placement(
        self,
        id: Seq<char>,
        ship_type: ShipType,
        cells: Seq<Cell>,
    ) -> GameModel {
        let seat = self.seat_of(id).unwrap();
        let placed = GameModel {
            players: self.players.update(seat, self.players[seat].with_ship(ship_type, cells)),
            ..self
        };
        if placed.phase is Setup && placed.everyone_ready() {
            let first = placed.players[0].id;
            GameModel {
                phase: PhaseModel::InProgress,
                turn: Some(first),
                events: placed.events.push(EventModel::TurnChanged { player: first }),
                ..placed
            }
        } else {
            placed
        }
    }

    /// Why a guess is rejected, if it is.
    pub open spec fn guess_error(self, id: Seq<char>, cell: Cell) -> Option<GameError> {
        match self.phase {
            PhaseModel::Setup => Some(GameError::NotInProgress),
            PhaseModel::Finished { .. } => Some(GameError::GameAlreadyFinished),
            PhaseModel::InProgress => {
                if self.turn != Some(id) || self.seat_of(id) is None {
                    Some(GameError::NotYourTurn)
                } else if !cell.in_bounds() {
                    Some(GameError::OutOfBounds)
                } else if self.players[self.seat_of(id).unwrap()].guesses.contains(cell) {
                    Some(GameError::DuplicateGuess)
                } else {
                    None
                }
            },
        }
    }

    /// The match after an accepted guess: the opponent's board marked, the guess
    /// logged, and either the match won or the turn passed on.
    pub open spec fn after_guess(self, id: Seq<char>, cell: Cell) -> GameModel {
        let seat = self.seat_of(id).unwrap();
        let guesser = self.players[seat].with_guess(cell);
        let target = self.players[1 - seat].struck(cell);
        let outcome = self.players[1 - seat].outcome_at(cell);
        let players = self.players.update(seat, guesser).update(1 - seat, target);
        let events = self.events.push(EventModel::GuessMade { player: id, cell, outcome });
        if target.sunk() {
            GameModel {
                players,
                phase: PhaseModel::Finished { winner: id },
                events: events.push(EventModel::GameOver { winner: id }),
                ..self
            }
        } else {
            GameModel {
                players,
                turn: Some(target.id),
                events: events.push(EventModel::TurnChanged { player: target.id }),
                ..self
            }
        }
    }

    /// What is reported to the guesser of an accepted guess.
    pub open spec fn guess_report(self, id: Seq<char>, cell: Cell) -> GuessReport {
        let seat = self.seat_of(id).unwrap();
        let over = self.players[1 - seat].struck(cell).sunk();
        GuessReport {
            outcome: self.players[1 - seat].outcome_at(cell),
            game_over: over,
            winner: if over {
                Some(id)
            } else {
                None
            },
        }
    }

    /// What the player with an identifier may see: the own board as it is, and the
    /// opponent's board with every ship that was not hit shown as water. Without an
    /// opponent the opponent's board is empty.
    pub open spec fn view_for(self, id: Seq<char>) -> GameViewModel {
        let seat = self.seat_of(id).unwrap();
        GameViewModel {
            own_board: self.players[seat].board,
            opponent_board: if self.players.len() == 2 {
                concealed_grid(self.players[1 - seat].board)
            } else {
                empty_grid()
            },
            phase: self.phase,
            turn: self.turn,
        }
    }

    /// The match after its pending events were taken.
    pub open spec fn without_events(self) -> GameModel {
        GameModel { events: Seq::empty(), ..self }
    }
}

/// An accepted registration keeps the match well formed. None is accepted while
/// the match is in progress, since both seats are then taken.
pub proof fn lemma_registration_wf(g: GameModel, id: Seq<char>)
    requires
        g.wf(),
        g.registration_error(id) is None,
    ensures
        g.after_registration(id).wf(),
        !(g.phase is InProgress),
{
    lemma_fresh(id);
    let h = g.after_registration(id);
    assert forall|i: int| 0 <= i < h.players.len() implies (#[trigger] h.players[i]).wf() && (
    g.phase is Setup ==> h.players[i].pristine()) && (g.phase is Finished ==> fleet_complete(
        h.players[i].fleet,
    ) || h.players[i].pristine()) by {
        if i < g.players.len() {
            assert(h.players[i] == g.players[i]);
        }
    }
}

/// An accepted removal keeps the match well formed.
pub proof fn lemma_removal_wf(g: GameModel, id: Seq<char>)
    requires
        g.wf(),
        g.removal_error(id) is None,
    ensures
        g.after_removal(id).wf(),
{
    let seat = g.seat_of(id).unwrap();
    let h = g.after_removal(id);
    assert forall|i: int| 0 <= i < h.players.len() implies (#[trigger] h.players[i]).wf() && (g.phase
        is Setup ==> h.players[i].pristine()) && (g.phase is InProgress ==> fleet_complete(
        h.players[i].fleet,
    )) && (g.phase is Finished ==> fleet_complete(h.players[i].fleet)
        || h.players[i].pristine()) by {
        if i < seat {
            assert(h.players[i] == g.players[i]);
        } else {
            assert(h.players[i] == g.players[i + 1]);
        }
    }
}

/// A player with a complete fleet that was never guessed at has ships afloat.
pub proof fn lemma_pristine_afloat(p: PlayerModel)
    requires
        p.wf(),
        p.pristine(),
        fleet_complete(p.fleet),
    ensures
        !p.sunk(),
{
    let t = ShipType::Carrier;
    assert(p.fleet.dom().contains(t));
    assert(shape_error(t, p.fleet[t]) is None);
    let c = p.fleet[t][0];
    assert(c.in_bounds());
    lemma_offset_injective(c, c);
    lemma_count_zero(p.board, CellState::Hit);
    assert(grid_at(p.board, p.fleet[t][0]) != CellState::Hit);
}

/// A placement is accepted only from a player who was never guessed at, so never
/// while the match is in progress; and it keeps the match well formed.
pub proof fn lemma_placement_wf(g: GameModel, id: Seq<char>, ship_type: ShipType, cells: Seq<Cell>)
    requires
        g.wf(),
        g.placement_error(id, ship_type, cells) is None,
    ensures
        !(g.phase is InProgress),
        g.players[g.seat_of(id).unwrap()].pristine(),
        g.after_placement(id, ship_type, cells).wf(),
{
    let seat = g.seat_of(id).unwrap();
    let p = g.players[seat];
    assert(p.wf());
    if fleet_complete(p.fleet) {
        assert(p.fleet.dom().contains(ship_type));
    }
    assert(p.pristine());
    lemma_with_ship(p, ship_type, cells);
    let h = g.after_placement(id, ship_type, cells);
    assert forall|i: int| 0 <= i < h.players.len() implies (#[trigger] h.players[i]).wf() && (
    g.phase is Setup ==> h.players[i].pristine()) && (g.phase is Finished ==> fleet_complete(
        h.players[i].fleet,
    ) || h.players[i].pristine()) by {
        if i != seat {
            assert(h.players[i] == g.players[i]);
        }
    }
    if h.phase is InProgress {
        lemma_pristine_tracks(h.players[0], h.players[1]);
        lemma_pristine_tracks(h.players[1], h.players[0]);
        lemma_pristine_afloat(h.players[0]);
        lemma_pristine_afloat(h.players[1]);
    }
}

/// Between two players who have not been guessed at, each board tracks the other's log.
pub proof fn lemma_pristine_tracks(guesser: PlayerModel, target: PlayerModel)
    requires
        guesser.pristine(),
        target.pristine(),
        target.wf(),
    ensures
        tracks(guesser, target),
{
    lemma_count_zero(target.board, CellState::Hit);
    lemma_count_zero(target.board, CellState::Miss);
    assert forall|c: Cell|
        #![trigger guesser.guesses.contains(c)]
        #![trigger grid_at(target.board, c)]
        c.in_bounds() implies (guesser.guesses.contains(c) <==> (grid_at(target.board, c)
        == CellState::Hit || grid_at(target.board, c) == CellState::Miss)) by {
        lemma_offset_injective(c, c);
        let s = target.board[c.offset()];
        assert(s != CellState::Hit);
        assert(s != CellState::Miss);
    }
}

/// An accepted guess keeps the match well formed.
pub proof fn lemma_guess_wf(g: GameModel, id: Seq<char>, cell: Cell)
    requires
        g.wf(),
        g.guess_error(id, cell) is None,
    ensures
        g.after_guess(id, cell).wf(),
{
    let seat = g.seat_of(id).unwrap();
    let me = g.players[seat];
    let opp = g.players[1 - seat];
    assert(me.wf());
    assert(opp.wf());
    assert(tracks(me, opp));
    assert(tracks(opp, me));
    assert(!me.guesses.contains(cell));
    assert(grid_at(opp.board, cell) == CellState::Empty || grid_at(opp.board, cell)
        == CellState::Occupied);
    lemma_with_guess(me, cell);
    lemma_struck(opp, cell);
    let h = g.after_guess(id, cell);
    let me2 = me.with_guess(cell);
    let opp2 = opp.struck(cell);
    assert(h.players[seat] == me2);
    assert(h.players[1 - seat] == opp2);
    lemma_offset_injective(cell, cell);
    assert forall|c: Cell|
        #![trigger me2.guesses.contains(c)]
        #![trigger grid_at(opp2.board, c)]
        c.in_bounds() implies (me2.guesses.contains(c) <==> (grid_at(opp2.board, c)
        == CellState::Hit || grid_at(opp2.board, c) == CellState::Miss)) by {
        lemma_offset_injective(c, cell);
        if c == cell {
            assert(me2.guesses[me.guesses.len() as int] == cell);
        } else {
            assert(grid_at(opp2.board, c) == grid_at(opp.board, c));
            if me2.guesses.contains(c) {
                let k = choose|k: int| 0 <= k < me2.guesses.len() && me2.guesses[k] == c;
                assert(me.guesses[k] == c);
            }
            if me.guesses.contains(c) {
                let k = choose|k: int| 0 <= k < me.guesses.len() && me.guesses[k] == c;
                assert(me2.guesses[k] == c);
            }
        }
    }
    assert(tracks(me2, opp2));
    assert(tracks(opp2, me2));
    assert(me2.sunk() == me.sunk());
}

} // verus!
