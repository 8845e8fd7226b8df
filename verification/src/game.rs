//! The match itself: two seats, the phase, the turn and the pending events.

use crate::board::Board;
use crate::board::Cell;
use crate::catalog::ShipType;
use crate::error::GameError;
use crate::model::lemma_guess_wf;
use crate::model::lemma_placement_wf;
use crate::model::lemma_registration_wf;
use crate::model::lemma_removal_wf;
use crate::model::EventModel;
use crate::model::GameModel;
use crate::model::GameViewModel;
use crate::model::GuessReport;
use crate::model::PhaseModel;
use crate::player::Outcome;
use crate::player::PlayerModel;
use crate::player::PlayerState;
use crate::ship::Ship;
use crate::text::same_text;
use vstd::prelude::*;

verus! {

/// A notification of one state transition, for observers of the match.
#[derive(Debug)]
pub enum Event {
    PlayerJoined { player: String },
    PlayerLeft { player: String },
    TurnChanged { player: String },
    GuessMade { player: String, cell: Cell, outcome: Outcome },
    GameOver { winner: String },
}

impl View for Event {
    type V = EventModel;

    open spec fn view(&self) -> EventModel {
        match self {
            Event::PlayerJoined { player } => EventModel::PlayerJoined { player: player@ },
            Event::PlayerLeft { player } => EventModel::PlayerLeft { player: player@ },
            Event::TurnChanged { player } => EventModel::TurnChanged { player: player@ },
            Event::GuessMade { player, cell, outcome } => EventModel::GuessMade {
                player: player@,
                cell: *cell,
                outcome: *outcome,
            },
            Event::GameOver { winner } => EventModel::GameOver { winner: winner@ },
        }
    }
}

#[derive(Debug)]
pub enum Phase {
    Setup,
    InProgress,
    Finished { winner: String },
}

impl View for Phase {
    type V = PhaseModel;

    open spec fn view(&self) -> PhaseModel {
        match self {
            Phase::Setup => PhaseModel::Setup,
            Phase::InProgress => PhaseModel::InProgress,
            Phase::Finished { winner } => PhaseModel::Finished { winner: winner@ },
        }
    }
}

/// The answer to an accepted guess.
#[derive(Debug)]
pub struct GuessResult {
    pub outcome: Outcome,
    pub game_over: bool,
    pub winner: Option<String>,
}

impl View for GuessResult {
    type V = GuessReport;

    open spec fn view(&self) -> GuessReport {
        GuessReport {
            outcome: self.outcome,
            game_over: self.game_over,
            winner: text_of(self.winner),
        }
    }
}

/// What one player may see of the match.
#[derive(Debug)]
pub struct GameStateView {
    pub own_board: Board,
    pub opponent_board: Board,
    pub phase: Phase,
    pub turn: Option<String>,
}

impl View for GameStateView {
    type V = GameViewModel;

    open spec fn view(&self) -> GameViewModel {
        GameViewModel {
            own_board: self.own_board@,
            opponent_board: self.opponent_board@,
            phase: self.phase@,
            turn: text_of(self.turn),
        }
    }
}

/// The characters of an optional identifier.
pub open spec fn text_of(id: Option<String>) -> Option<Seq<char>> {
    match id {
        Some(s) => Some(s@),
        None => None,
    }
}

/// The values of a sequence of events.
pub open spec fn event_models(events: Seq<Event>) -> Seq<EventModel> {
    events.map_values(|e: Event| e@)
}

/// The values of a sequence of players.
pub open spec fn player_models(players: Seq<PlayerState>) -> Seq<PlayerModel> {
    players.map_values(|p: PlayerState| p@)
}

/// The state of one match.
#[derive(Debug)]
pub struct GameState {
    players: Vec<PlayerState>,
    turn: Option<String>,
    phase: Phase,
    events: Vec<Event>,
}

impl View for GameState {
    type V = GameModel;

    closed spec fn view(&self) -> GameModel {
        GameModel {
            players: player_models(self.players@),
            turn: text_of(self.turn),
            phase: self.phase@,
            events: event_models(self.events@),
        }
    }
}

impl GameState {
    /// Every seated player is laid out as its type demands.
    pub closed spec fn rep_ok(&self) -> bool {
        forall|i: int| 0 <= i < self.players@.len() ==> (#[trigger] self.players@[i]).rep_ok()
    }

    pub open spec fn wf(&self) -> bool {
        self.rep_ok() && self@.wf()
    }

    /// A match without players, in setup.
    pub fn new() -> (g: GameState)
        ensures
            g.wf(),
            g@ == GameModel::initial(),
    {
        let g = GameState {
            players: Vec::new(),
            turn: None,
            phase: Phase::Setup,
            events: Vec::new(),
        };
        assert(g@.players =~= GameModel::initial().players);
        assert(g@.events =~= GameModel::initial().events);
        g
    }

    /// The seat of the player with an identifier.
    fn seat_of(&self, id: &str) -> (r: Option<usize>)
        ensures
            match r {
                Some(seat) => seat < self.players@.len() && self@.seat_of(id@) == Some(seat as int),
                None => self@.seat_of(id@) is None,
            },
    {
        if self.players.len() > 0 && same_text(self.players[0].id().as_str(), id) {
            Some(0)
        } else if self.players.len() > 1 && same_text(self.players[1].id().as_str(), id) {
            Some(1)
        } else {
            None
        }
    }

    /// Seats a player under the given identifier and announces it.
    pub fn register(&mut self, id: String) -> (r: Result<(), GameError>)
        requires
            old(self).wf(),
        ensures
            final(self).wf(),
            match r {
                Ok(()) => old(self)@.registration_error(id@) is None && final(self)@ == old(self)@.after_registration(id@),
                Err(e) => old(self)@.registration_error(id@) == Some(e) && final(self)@ == old(self)@,
            },
    {
        if self.players.len() >= 2 {
            return Err(GameError::GameFull);
        }
        if self.seat_of(id.as_str()).is_some() {
            return Err(GameError::IdentifierTaken);
        }
        proof {
            lemma_registration_wf(old(self)@, id@);
        }
        let announced = id.clone();
        self.players.push(PlayerState::new(id));
        self.events.push(Event::PlayerJoined { player: announced });
        proof {
            let after = old(self)@.after_registration(id@);
            assert(self@.players =~= after.players);
            assert(self@.events =~= after.events);
        }
        Ok(())
    }

    /// Frees the seat of a player and announces it. While the match is in progress
    /// the player forfeits: the opponent wins and the match is over.
    pub fn remove_player(&mut self, id: &str) -> (r: Result<(), GameError>)
        requires
            old(self).wf(),
        ensures
            final(self).wf(),
            match r {
                Ok(()) => old(self)@.removal_error(id@) is None && final(self)@ == old(self)@.after_removal(id@),
                Err(e) => old(self)@.removal_error(id@) == Some(e) && final(self)@ == old(self)@,
            },
    {
        let seat = match self.seat_of(id) {
            Some(seat) => seat,
            None => {
                return Err(GameError::UnknownPlayer);
            },
        };
        proof {
            lemma_removal_wf(old(self)@, id@);
        }
        let in_progress = match &self.phase {
            Phase::InProgress => true,
            _ => false,
        };
        let left = self.players.remove(seat);
        self.events.push(Event::PlayerLeft { player: left.id().clone() });
        if in_progress {
            let winner = self.players[0].id().clone();
            self.events.push(Event::GameOver { winner: winner.clone() });
            self.phase = Phase::Finished { winner };
        }
        proof {
            let after = old(self)@.after_removal(id@);
            assert(self@.players =~= after.players);
            assert(self@.events =~= after.events);
        }
        Ok(())
    }

    /// Validates a placement and commits it. The placement that completes the second
    /// fleet during setup starts the match.
    pub fn place_ship(&mut self, id: &str, ship_type: ShipType, cells: Vec<Cell>) -> (r: Result<
        (),
        GameError,
    >)
        requires
            old(self).wf(),
        ensures
            final(self).wf(),
            match r {
                Ok(()) => old(self)@.placement_error(id@, ship_type, cells@) is None && final(self)@
                    == old(self)@.after_placement(id@, ship_type, cells@),
                Err(e) => old(self)@.placement_error(id@, ship_type, cells@) == Some(e) && final(self)@ == old(self)@,
            },
    {
        let seat = match self.seat_of(id) {
            Some(seat) => seat,
            None => {
                return Err(GameError::UnknownPlayer);
            },
        };
        if let Some(e) = self.players[seat].check_placement(ship_type, &cells) {
            return Err(e);
        }
        proof {
            lemma_placement_wf(old(self)@, id@, ship_type, cells@);
        }
        let ghost placed_cells = cells@;
        self.players[seat].place(Ship { ship_type, cells });
        let in_setup = match &self.phase {
            Phase::Setup => true,
            _ => false,
        };
        let ready = in_setup && self.players.len() == 2
            && self.players[0].fleet().is_complete() && self.players[1].fleet().is_complete();
        if ready {
            let first = self.players[0].id().clone();
            self.events.push(Event::TurnChanged { player: first.clone() });
            self.turn = Some(first);
            self.phase = Phase::InProgress;
        }
        proof {
            let after = old(self)@.after_placement(id@, ship_type, placed_cells);
            assert(self@.players =~= after.players);
            assert(self@.events =~= after.events);
        }
        Ok(())
    }

    /// Resolves a guess of the turn holder against the opponent's board.
    pub fn make_guess(&mut self, id: &str, cell: Cell) -> (r: Result<GuessResult, GameError>)
        requires
            old(self).wf(),
        ensures
            final(self).wf(),
            match r {
                Ok(result) => old(self)@.guess_error(id@, cell) is None && final(self)@ == old(self)@.after_guess(id@, cell) && result@ == old(self)@.guess_report(id@, cell),
                Err(e) => old(self)@.guess_error(id@, cell) == Some(e) && final(self)@ == old(self)@,
            },
    {
        match &self.phase {
            Phase::Setup => {
                return Err(GameError::NotInProgress);
            },
            Phase::Finished { .. } => {
                return Err(GameError::GameAlreadyFinished);
            },
            Phase::InProgress => {},
        }
        let holds_turn = match &self.turn {
            Some(holder) => same_text(holder.as_str(), id),
            None => false,
        };
        if !holds_turn {
            return Err(GameError::NotYourTurn);
        }
        let seat = match self.seat_of(id) {
            Some(seat) => seat,
            None => {
                return Err(GameError::NotYourTurn);
            },
        };
        if !cell.is_in_bounds() {
            return Err(GameError::OutOfBounds);
        }
        if self.players[seat].has_guessed(cell) {
            return Err(GameError::DuplicateGuess);
        }
        proof {
            lemma_guess_wf(old(self)@, id@, cell);
        }
        let other = 1 - seat;
        let outcome = self.players[other].strike(cell);
        self.players[seat].log_guess(cell);
        let guesser = self.players[seat].id().clone();
        self.events.push(Event::GuessMade { player: guesser.clone(), cell, outcome });
        proof {
            let after = old(self)@.after_guess(id@, cell);
            assert(self@.players =~= after.players);
            assert(self.players@[other as int]@ == after.players[other as int]);
        }
        let over = self.players[other].is_sunk();
        let result = if over {
            self.events.push(Event::GameOver { winner: guesser.clone() });
            self.phase = Phase::Finished { winner: guesser.clone() };
            GuessResult { outcome, game_over: true, winner: Some(guesser) }
        } else {
            let next = self.players[other].id().clone();
            self.events.push(Event::TurnChanged { player: next.clone() });
            self.turn = Some(next);
            GuessResult { outcome, game_over: false, winner: None }
        };
        proof {
            let after = old(self)@.after_guess(id@, cell);
            assert(self@.players =~= after.players);
            assert(self@.events =~= after.events);
        }
        Ok(result)
    }

    /// What the player with an identifier may see of the match.
    pub fn get_game_state(&self, id: &str) -> (r: Result<GameStateView, GameError>)
        requires
            self.wf(),
        ensures
            match r {
                Ok(view) => self@.seat_of(id@) is Some && view@ == self@.view_for(id@),
                Err(e) => self@.seat_of(id@) is None && e == GameError::UnknownPlayer,
            },
    {
        let seat = match self.seat_of(id) {
            Some(seat) => seat,
            None => {
                return Err(GameError::UnknownPlayer);
            },
        };
        let own_board = self.players[seat].board().snapshot();
        let opponent_board = if self.players.len() == 2 {
            self.players[1 - seat].board().concealed()
        } else {
            Board::new()
        };
        Ok(GameStateView { own_board, opponent_board, phase: self.phase(), turn: self.turn() })
    }

    /// The phase of the match.
    pub fn phase(&self) -> (r: Phase)
        ensures
            r@ == self@.phase,
    {
        match &self.phase {
            Phase::Setup => Phase::Setup,
            Phase::InProgress => Phase::InProgress,
            Phase::Finished { winner } => Phase::Finished { winner: winner.clone() },
        }
    }

    /// The player who holds the turn; it has a meaning only while the match is in
    /// progress.
    pub fn turn(&self) -> (r: Option<String>)
        ensures
            text_of(r) == self@.turn,
    {
        match &self.turn {
            Some(holder) => Some(holder.clone()),
            None => None,
        }
    }

    /// Number of seated players.
    pub fn player_count(&self) -> (n: usize)
        ensures
            n == self@.players.len(),
    {
        self.players.len()
    }

    /// The player in a seat.
    pub fn player(&self, seat: usize) -> (r: Option<&PlayerState>)
        ensures
            match r {
                Some(p) => seat < self@.players.len() && p@ == self@.players[seat as int] && (
                self.wf() ==> p.wf()),
                None => seat >= self@.players.len(),
            },
    {
        if seat < self.players.len() {
            Some(&self.players[seat])
        } else {
            None
        }
    }

    /// Hands out the events emitted since the last call, oldest first.
    pub fn take_events(&mut self) -> (r: Vec<Event>)
        ensures
            event_models(r@) == old(self)@.events,
            final(self)@ == old(self)@.without_events(),
            old(self).wf() ==> final(self).wf(),
    {
        let mut taken: Vec<Event> = Vec::new();
        core::mem::swap(&mut self.events, &mut taken);
        proof {
            assert(self@.events =~= old(self)@.without_events().events);
        }
        taken
    }
}

} // verus!
