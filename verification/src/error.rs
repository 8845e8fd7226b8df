//! Reasons for which the engine rejects a request.

use vstd::prelude::*;

verus! {

/// Every rejection leaves the match exactly as it was.
#[derive(Clone, Copy, Debug, PartialEq, Eq, Structural, Hash)]
pub enum GameError {
    /// The ship type name is not in the catalog.
    InvalidShipType,
    /// The player already placed a ship of that type.
    DuplicateShipType,
    /// The number of cells differs from the catalog length of the type.
    WrongLength,
    /// A cell lies outside the board.
    OutOfBounds,
    /// The cells do not run along one row or column in unit steps.
    NotContiguous,
    /// A cell is already covered by one of the player's ships.
    Overlap,
    /// The player already guessed that cell.
    DuplicateGuess,
    /// Another player holds the turn.
    NotYourTurn,
    /// Guesses are taken only once both fleets are complete.
    NotInProgress,
    /// The match has a winner; no guess is accepted any more.
    GameAlreadyFinished,
    /// No registered player has that identifier.
    UnknownPlayer,
    /// Both seats of the match are taken.
    GameFull,
    /// A registered player already has that identifier.
    IdentifierTaken,
    /// A placement stream ended before it carried any placement.
    EmptyStream,
}

/// Whether an error blames what a request holds or when it came.
#[derive(Clone, Copy, Debug, PartialEq, Eq, Structural, Hash)]
pub enum ErrorKind {
    /// The request itself is at fault, whenever it is sent.
    Validation,
    /// The request came at the wrong moment of the match.
    Sequencing,
}

impl GameError {
    /// The text that describes the error to a client.
    pub open spec fn text(self) -> Seq<char> {
        match self {
            GameError::InvalidShipType => "Invalid ship type"@,
            GameError::DuplicateShipType => "All ships of this type are already placed"@,
            GameError::WrongLength => "Wrong number of cells for this ship type"@,
            GameError::OutOfBounds => "Cell outside the board"@,
            GameError::NotContiguous => "Cells are not contiguous"@,
            GameError::Overlap => "Cells overlap a placed ship"@,
            GameError::DuplicateGuess => "Cell already guessed"@,
            GameError::NotYourTurn => "Not your turn"@,
            GameError::NotInProgress => "Game is not in progress"@,
            GameError::GameAlreadyFinished => "Game already finished"@,
            GameError::UnknownPlayer => "Unknown player"@,
            GameError::GameFull => "Game is full"@,
            GameError::IdentifierTaken => "Player identifier already in use"@,
            GameError::EmptyStream => "No ship placement in stream"@,
        }
    }

    pub fn message(&self) -> (m: &'static str)
        ensures
            m@ == self.text(),
    {
        match self {
            GameError::InvalidShipType => "Invalid ship type",
            GameError::DuplicateShipType => "All ships of this type are already placed",
            GameError::WrongLength => "Wrong number of cells for this ship type",
            GameError::OutOfBounds => "Cell outside the board",
            GameError::NotContiguous => "Cells are not contiguous",
            GameError::Overlap => "Cells overlap a placed ship",
            GameError::DuplicateGuess => "Cell already guessed",
            GameError::NotYourTurn => "Not your turn",
            GameError::NotInProgress => "Game is not in progress",
            GameError::GameAlreadyFinished => "Game already finished",
            GameError::UnknownPlayer => "Unknown player",
            GameError::GameFull => "Game is full",
            GameError::IdentifierTaken => "Player identifier already in use",
            GameError::EmptyStream => "No ship placement in stream",
        }
    }

    /// The class of the error: the three errors of timing are sequencing errors, all
    /// others validation errors.
    pub open spec fn spec_kind(&self) -> ErrorKind {
        if self is NotYourTurn || self is NotInProgress || self is GameAlreadyFinished {
            ErrorKind::Sequencing
        } else {
            ErrorKind::Validation
        }
    }

    #[verifier::when_used_as_spec(spec_kind)]
    pub fn kind(&self) -> (k: ErrorKind)
        ensures
            k == self.spec_kind(),
    {
        match self {
            GameError::NotYourTurn | GameError::NotInProgress | GameError::GameAlreadyFinished => {
                ErrorKind::Sequencing
            },
            _ => ErrorKind::Validation,
        }
    }
}

} // verus!
