//! The request-level face of the engine: identifiers are issued here, ship types
//! arrive by name, and placements arrive as a stream of messages.

use crate::board::Cell;
use crate::catalog::ship_type_named;
use crate::catalog::ShipType;
use crate::error::GameError;
use crate::game::event_models;
use crate::game::Event;
use crate::game::GameState;
use crate::game::GameStateView;
use crate::game::GuessResult;
use crate::model::GameModel;
use vstd::prelude::*;

verus! {

/// A hexadecimal digit in lower case.
pub open spec fn is_lower_hex(c: char) -> bool {
    ('0' <= c && c <= '9') || ('a' <= c && c <= 'f')
}

/// The text of a random (version 4) UUID in its hyphenated lower-case form:
/// 8-4-4-4-12 hexadecimal digits, the third group starting with the version digit
/// `4`, the fourth with one of the variant digits `8`, `9`, `a`, `b`.
pub open spec fn is_random_uuid_text(s: Seq<char>) -> bool {
    &&& s.len() == 36
    &&& forall|i: int|
        0 <= i < 36 ==> if i == 8 || i == 13 || i == 18 || i == 23 {
            s[i] == '-'
        } else {
            is_lower_hex(#[trigger] s[i])
        }
    &&& s[14] == '4'
    &&& (s[19] == '8' || s[19] == '9' || s[19] == 'a' || s[19] == 'b')
}

/// Calls `uuid::Uuid::new_v4` and formats the result with its `Display` impl.
///
/// Trusted, not proved: the text has the hyphenated lower-case form of a version 4
/// UUID. Nothing is claimed of the random digits; in particular two calls may
/// return the same text. The call panics if the operating system cannot supply
/// random bytes.
#[verifier::external_body]
fn fresh_identifier() -> (id: String)
    ensures
        is_random_uuid_text(id@),
{
    uuid::Uuid::new_v4().to_string()
}

/// One message of a placement stream.
#[derive(Debug)]
pub struct ShipPlacement {
    pub player_id: String,
    /// The lower-case name of the ship type, such as `"carrier"`.
    pub ship_type: String,
    pub cells: Vec<Cell>,
}

/// Why a placement message is rejected, if it is: an unknown type name first, then
/// the rules of the match.
pub open spec fn message_error(g: GameModel, id: Seq<char>, name: Seq<char>, cells: Seq<Cell>)
    -> Option<GameError> {
    match ship_type_named(name) {
        None => Some(GameError::InvalidShipType),
        Some(ship_type) => g.placement_error(id, ship_type, cells),
    }
}

/// The match after a placement message: changed only if the message is accepted.
pub open spec fn after_message(g: GameModel, id: Seq<char>, name: Seq<char>, cells: Seq<Cell>)
    -> GameModel {
    if message_error(g, id, name, cells) is None {
        g.after_placement(id, ship_type_named(name).unwrap(), cells)
    } else {
        g
    }
}

/// The course of one placement stream: how many messages were committed, and the
/// error that aborted it, if one did.
#[derive(Clone, Copy, Debug, PartialEq, Eq, Structural)]
pub struct PlacementSession {
    pub committed: usize,
    pub aborted: Option<GameError>,
}

impl PlacementSession {
    /// The session of a stream that has delivered nothing yet.
    pub open spec fn spec_new() -> PlacementSession {
        PlacementSession { committed: 0, aborted: None }
    }

    #[verifier::when_used_as_spec(spec_new)]
    pub fn new() -> (s: PlacementSession)
        ensures
            s == Self::spec_new(),
    {
        PlacementSession { committed: 0, aborted: None }
    }

    /// The session after one more message, given the error the match raised for it.
    /// An aborted session stays as it is.
    pub open spec fn advanced(self, error: Option<GameError>) -> PlacementSession {
        if self.aborted is Some {
            self
        } else if error is Some {
            PlacementSession { aborted: error, ..self }
        } else {
            PlacementSession { committed: (self.committed + 1) as usize, ..self }
        }
    }

    /// The final answer to the stream: the error that aborted it, `EmptyStream` if it
    /// carried no message, else the number of placements committed.
    pub open spec fn spec_finish(self) -> Result<usize, GameError> {
        match self.aborted {
            Some(e) => Err(e),
            None => if self.committed == 0 {
                Err(GameError::EmptyStream)
            } else {
                Ok(self.committed)
            },
        }
    }

    #[verifier::when_used_as_spec(spec_finish)]
    pub fn finish(self) -> (r: Result<usize, GameError>)
        ensures
            r == self.spec_finish(),
    {
        match self.aborted {
            Some(e) => Err(e),
            None => if self.committed == 0 {
                Err(GameError::EmptyStream)
            } else {
                Ok(self.committed)
            },
        }
    }
}

/// The engine of one match.
#[derive(Debug)]
pub struct BattleShipService {
    game_state: GameState,
}

impl View for BattleShipService {
    type V = GameModel;

    closed spec fn view(&self) -> GameModel {
        self.game_state@
    }
}

impl Default for BattleShipService {
    fn default() -> (s: BattleShipService)
        ensures
            s.wf(),
            s@ == GameModel::initial(),
    {
        BattleShipService::new()
    }
}

impl BattleShipService {
    /// The match behind the service is laid out as its type demands.
    pub closed spec fn rep_ok(&self) -> bool {
        self.game_state.rep_ok()
    }

    pub open spec fn wf(&self) -> bool {
        self.rep_ok() && self@.wf()
    }

    /// A service for a match without players, in setup.
    pub fn new() -> (s: BattleShipService)
        ensures
            s.wf(),
            s@ == GameModel::initial(),
    {
        BattleShipService { game_state: GameState::new() }
    }

    /// Issues a fresh identifier and seats a player under it. Whether the player is
    /// admitted is decided as for any identifier; that the fresh one is already
    /// taken is possible, though practically excluded.
    pub fn register_player(&mut self) -> (r: Result<String, GameError>)
        requires
            old(self).wf(),
        ensures
            final(self).wf(),
            match r {
                Ok(id) => is_random_uuid_text(id@) && old(self)@.registration_error(id@) is None
                    && final(self)@ == old(self)@.after_registration(id@),
                Err(e) => final(self)@ == old(self)@ && exists|id: Seq<char>|
                    is_random_uuid_text(id) && #[trigger] old(self)@.registration_error(id)
                        == Some(e),
            },
    {
        let id = fresh_identifier();
        self.register_player_as(id)
    }

    /// Seats a player under an identifier issued elsewhere.
    pub fn register_player_as(&mut self, id: String) -> (r: Result<String, GameError>)
        requires
            old(self).wf(),
        ensures
            final(self).wf(),
            match r {
                Ok(issued) => issued@ == id@ && old(self)@.registration_error(id@) is None
                    && final(self)@ == old(self)@.after_registration(id@),
                Err(e) => old(self)@.registration_error(id@) == Some(e) && final(self)@ == old(self)@,
            },
    {
        let issued = id.clone();
        match self.game_state.register(id) {
            Ok(()) => Ok(issued),
            Err(e) => Err(e),
        }
    }

    /// Frees the seat of a player; see `GameState::remove_player`.
    pub fn remove_player(&mut self, id: &str) -> (r: Result<(), GameError>)
        requires
            old(self).wf(),
        ensures
            final(self).wf(),
            match r {
                Ok(()) => old(self)@.removal_error(id@) is None && final(self)@ == old(self)@.after_removal(id@),
                Err(e) => old(self)@.removal_error(id@) == Some(e) && final(self)@ == old(self)@,
            },
    {
        self.game_state.remove_player(id)
    }

    /// Validates and commits one placement message.
    pub fn place_ship(&mut self, placement: ShipPlacement) -> (r: Result<(), GameError>)
        requires
            old(self).wf(),
        ensures
            final(self).wf(),
            final(self)@ == after_message(
                old(self)@,
                placement.player_id@,
                placement.ship_type@,
                placement.cells@,
            ),
            match r {
                Ok(()) => message_error(
                    old(self)@,
                    placement.player_id@,
                    placement.ship_type@,
                    placement.cells@,
                ) is None,
                Err(e) => message_error(
                    old(self)@,
                    placement.player_id@,
                    placement.ship_type@,
                    placement.cells@,
                ) == Some(e),
            },
    {
        match ShipType::from_name(placement.ship_type.as_str()) {
            None => Err(GameError::InvalidShipType),
            Some(ship_type) => self.game_state.place_ship(
                placement.player_id.as_str(),
                ship_type,
                placement.cells,
            ),
        }
    }

    /// Handles the next message of a placement stream. A message that follows a
    /// rejected one is dropped; what was committed before the rejection stands.
    pub fn place_next(&mut self, session: PlacementSession, placement: ShipPlacement) -> (next:
        PlacementSession)
        requires
            old(self).wf(),
            session.committed < usize::MAX,
        ensures
            final(self).wf(),
            final(self)@ == (if session.aborted is Some {
                old(self)@
            } else {
                after_message(
                    old(self)@,
                    placement.player_id@,
                    placement.ship_type@,
                    placement.cells@,
                )
            }),
            next == session.advanced(
                message_error(
                    old(self)@,
                    placement.player_id@,
                    placement.ship_type@,
                    placement.cells@,
                ),
            ),
    {
        if session.aborted.is_some() {
            return session;
        }
        match self.place_ship(placement) {
            Ok(()) => PlacementSession { committed: session.committed + 1, aborted: None },
            Err(e) => PlacementSession { committed: session.committed, aborted: Some(e) },
        }
    }

    /// Resolves a guess; see `GameState::make_guess`.
    pub fn make_guess(&mut self, id: &str, cell: Cell) -> (r: Result<GuessResult, GameError>)
        requires
            old(self).wf(),
        ensures
            final(self).wf(),
            match r {
                Ok(result) => old(self)@.guess_error(id@, cell) is None && final(self)@ == old(self)@.after_guess(id@, cell) && result@ == old(self)@.guess_report(id@, cell),
                Err(e) => old(self)@.guess_error(id@, cell) == Some(e) && final(self)@ == old(self)@,
            },
    {
        self.game_state.make_guess(id, cell)
    }

    /// What a player may see of the match; see `GameState::get_game_state`.
    pub fn get_game_state(&self, id: &str) -> (r: Result<GameStateView, GameError>)
        requires
            self.wf(),
        ensures
            match r {
                Ok(view) => self@.seat_of(id@) is Some && view@ == self@.view_for(id@),
                Err(e) => self@.seat_of(id@) is None && e == GameError::UnknownPlayer,
            },
    {
        self.game_state.get_game_state(id)
    }

    /// Hands out the events emitted since the last call, oldest first.
    pub fn take_events(&mut self) -> (r: Vec<Event>)
        requires
            old(self).wf(),
        ensures
            final(self).wf(),
            event_models(r@) == old(self)@.events,
            final(self)@ == old(self)@.without_events(),
    {
        self.game_state.take_events()
    }

    /// The match behind the service.
    pub fn game_state(&self) -> (g: &GameState)
        ensures
            g@ == self@,
            self.wf() ==> g.wf(),
    {
        &self.game_state
    }
}

} // verus!
