//! Laws of the match, proved of the transitions in `model`.

use crate::board::count_cells;
use crate::board::grid_at;
use crate::board::lemma_concealed_grid;
use crate::board::lemma_count_zero;
use crate::board::lemma_offset_injective;
use crate::board::Cell;
use crate::board::CellState;
use crate::board::BOARD_CELLS;
use crate::catalog::ship_type_named;
use crate::catalog::ShipType;
use crate::catalog::FLEET_CELLS;
use crate::error::GameError;
use crate::fleet::fleet_cells;
use crate::fleet::fleet_complete;
use crate::model::lemma_guess_wf;
use crate::model::lemma_placement_wf;
use crate::model::tracks;
use crate::model::GameModel;
use crate::model::PhaseModel;
use crate::player::lemma_with_ship;
use crate::player::Outcome;
use crate::service::after_message;
use crate::service::message_error;
use crate::player::PlayerModel;
use crate::ship::shape_error;
use vstd::prelude::*;

verus! {

/// How far a match has come: setup, then play, then the end.
pub open spec fn phase_rank(phase: PhaseModel) -> nat {
    match phase {
        PhaseModel::Setup => 0,
        PhaseModel::InProgress => 1,
        PhaseModel::Finished { .. } => 2,
    }
}

/// The ships of a complete fleet cover 17 cells of the owner's board, each of them
/// occupied or hit. Until the first guess lands, all 17 are occupied.
pub proof fn law_complete_fleet_covers_seventeen(p: PlayerModel)
    requires
        p.wf(),
        fleet_complete(p.fleet),
    ensures
        fleet_cells(p.fleet) == FLEET_CELLS,
        count_cells(p.board, CellState::Occupied) + count_cells(p.board, CellState::Hit)
            == FLEET_CELLS,
        p.pristine() ==> count_cells(p.board, CellState::Occupied) == FLEET_CELLS,
{
    assert(p.fleet.dom().contains(ShipType::Carrier));
    assert(p.fleet.dom().contains(ShipType::Battleship));
    assert(p.fleet.dom().contains(ShipType::Cruiser));
    assert(p.fleet.dom().contains(ShipType::Submarine));
    assert(p.fleet.dom().contains(ShipType::Destroyer));
}

/// Each accepted placement adds the catalog length of its type to the occupied
/// cells of the placing player, and when the match starts every player has exactly
/// 17 occupied cells.
pub proof fn law_placements_fill_boards(
    g: GameModel,
    id: Seq<char>,
    ship_type: ShipType,
    cells: Seq<Cell>,
)
    requires
        g.wf(),
        g.placement_error(id, ship_type, cells) is None,
    ensures
        ({
            let seat = g.seat_of(id).unwrap();
            let after = g.after_placement(id, ship_type, cells);
            &&& count_cells(after.players[seat].board, CellState::Occupied) == count_cells(
                g.players[seat].board,
                CellState::Occupied,
            ) + ship_type.spec_length()
            &&& after.phase is InProgress ==> forall|i: int|
                0 <= i < after.players.len() ==> count_cells(
                    (#[trigger] after.players[i]).board,
                    CellState::Occupied,
                ) == FLEET_CELLS
        }),
{
    let seat = g.seat_of(id).unwrap();
    let after = g.after_placement(id, ship_type, cells);
    lemma_placement_wf(g, id, ship_type, cells);
    assert(g.players[seat].wf());
    assert(g.players[seat].pristine());
    lemma_with_ship(g.players[seat], ship_type, cells);
    if after.phase is InProgress {
        assert forall|i: int| 0 <= i < after.players.len() implies count_cells(
            (#[trigger] after.players[i]).board,
            CellState::Occupied,
        ) == FLEET_CELLS by {
            if i != seat {
                assert(after.players[i] == g.players[i]);
                assert(g.players[i].pristine());
            }
            assert(after.players[i].wf());
            law_complete_fleet_covers_seventeen(after.players[i]);
        }
    }
}

/// Once a player has placed a ship of a type, every further placement of that type
/// by the player is rejected as a duplicate, whatever its cells.
pub proof fn law_second_placement_rejected(
    g: GameModel,
    id: Seq<char>,
    ship_type: ShipType,
    first: Seq<Cell>,
    second: Seq<Cell>,
)
    requires
        g.wf(),
        g.placement_error(id, ship_type, first) is None,
    ensures
        g.after_placement(id, ship_type, first).placement_error(id, ship_type, second) == Some(
            GameError::DuplicateShipType,
        ),
{
    let seat = g.seat_of(id).unwrap();
    let after = g.after_placement(id, ship_type, first);
    assert(after.players[seat] == g.players[seat].with_ship(ship_type, first));
    assert(after.players[seat].fleet.dom().contains(ship_type));
    assert(after.seat_of(id) == Some(seat));
}

/// A second placement message for a type that the player has placed is rejected as
/// a duplicate and leaves the match exactly as the first left it.
pub proof fn law_duplicate_message_changes_nothing(
    g: GameModel,
    id: Seq<char>,
    name: Seq<char>,
    first: Seq<Cell>,
    second: Seq<Cell>,
)
    requires
        g.wf(),
        message_error(g, id, name, first) is None,
    ensures
        message_error(after_message(g, id, name, first), id, name, second) == Some(
            GameError::DuplicateShipType,
        ),
        after_message(after_message(g, id, name, first), id, name, second) == after_message(
            g,
            id,
            name,
            first,
        ),
{
    law_second_placement_rejected(g, id, ship_type_named(name).unwrap(), first, second);
}

/// A placement of a type that the player has already placed is rejected as a
/// duplicate in every state.
pub proof fn law_placed_type_rejected(
    g: GameModel,
    id: Seq<char>,
    ship_type: ShipType,
    cells: Seq<Cell>,
)
    requires
        g.seat_of(id) is Some,
        g.players[g.seat_of(id).unwrap()].fleet.dom().contains(ship_type),
    ensures
        g.placement_error(id, ship_type, cells) == Some(GameError::DuplicateShipType),
{
}

/// A guess at a cell of the player's own log is never accepted. While the player
/// holds the turn it is rejected as a duplicate; at any other time the error of
/// timing comes first.
pub proof fn law_logged_guess_rejected(g: GameModel, id: Seq<char>, cell: Cell)
    requires
        g.wf(),
        g.seat_of(id) is Some,
        g.players[g.seat_of(id).unwrap()].guesses.contains(cell),
    ensures
        g.guess_error(id, cell) == Some(
            match g.phase {
                PhaseModel::Setup => GameError::NotInProgress,
                PhaseModel::Finished { .. } => GameError::GameAlreadyFinished,
                PhaseModel::InProgress => if g.turn == Some(id) {
                    GameError::DuplicateGuess
                } else {
                    GameError::NotYourTurn
                },
            },
        ),
{
    let p = g.players[g.seat_of(id).unwrap()];
    assert(p.wf());
    let k = choose|k: int| 0 <= k < p.guesses.len() && p.guesses[k] == cell;
    assert(p.guesses[k].in_bounds());
}

/// An accepted guess enters the guesser's log, and no accepted guess of anyone
/// removes a cell from a log. So a cell that a player guessed is never accepted
/// from that player again.
pub proof fn law_guess_log_grows(g: GameModel, id: Seq<char>, cell: Cell)
    requires
        g.wf(),
        g.guess_error(id, cell) is None,
    ensures
        ({
            let seat = g.seat_of(id).unwrap();
            let after = g.after_guess(id, cell);
            &&& after.players.len() == g.players.len()
            &&& after.players[seat].guesses.contains(cell)
            &&& forall|i: int, c: Cell|
                0 <= i < g.players.len() && g.players[i].guesses.contains(c)
                    ==> #[trigger] after.players[i].guesses.contains(c)
            &&& forall|i: int| 0 <= i < g.players.len() ==> after.players[i].id == g.players[i].id
        }),
{
    let seat = g.seat_of(id).unwrap();
    let after = g.after_guess(id, cell);
    let me = g.players[seat];
    assert(after.players[seat].guesses[me.guesses.len() as int] == cell);
    assert forall|i: int, c: Cell|
        0 <= i < g.players.len() && g.players[i].guesses.contains(c)
        implies #[trigger] after.players[i].guesses.contains(c) by {
        let k = choose|k: int| 0 <= k < g.players[i].guesses.len() && g.players[i].guesses[k] == c;
        assert(after.players[i].guesses[k] == c);
    }
}

/// A player guesses a cell, the opponent answers with a guess, and neither wins:
/// the first player holds the turn again, and the same cell is now rejected as a
/// duplicate.
pub proof fn law_repeated_guess_rejected(
    g: GameModel,
    id: Seq<char>,
    cell: Cell,
    opponent: Seq<char>,
    reply: Cell,
)
    requires
        g.wf(),
        g.guess_error(id, cell) is None,
        g.after_guess(id, cell).phase is InProgress,
        g.after_guess(id, cell).guess_error(opponent, reply) is None,
        g.after_guess(id, cell).after_guess(opponent, reply).phase is InProgress,
    ensures
        g.after_guess(id, cell).after_guess(opponent, reply).guess_error(id, cell) == Some(
            GameError::DuplicateGuess,
        ),
{
    let g1 = g.after_guess(id, cell);
    let g2 = g1.after_guess(opponent, reply);
    lemma_guess_wf(g, id, cell);
    lemma_guess_wf(g1, opponent, reply);
    law_guess_log_grows(g, id, cell);
    law_guess_log_grows(g1, opponent, reply);
    let seat = g.seat_of(id).unwrap();
    assert(g1.players[seat].guesses.contains(cell));
    assert(g2.players[seat].guesses.contains(cell));
    assert(g1.seat_of(id) == Some(seat));
    assert(g2.seat_of(id) == Some(seat));
    assert(g1.seat_of(opponent) == Some(1 - seat));
    law_logged_guess_rejected(g2, id, cell);
}

/// After an accepted guess that does not win, the turn belongs to the opponent:
/// every guess of the guesser is rejected with `NotYourTurn`, and only the
/// opponent's guess can be accepted next.
pub proof fn law_turn_alternates(g: GameModel, id: Seq<char>, cell: Cell)
    requires
        g.wf(),
        g.guess_error(id, cell) is None,
        g.after_guess(id, cell).phase is InProgress,
    ensures
        ({
            let seat = g.seat_of(id).unwrap();
            let after = g.after_guess(id, cell);
            &&& after.turn == Some(g.players[1 - seat].id)
            &&& forall|next: Cell| #[trigger]
                after.guess_error(id, next) == Some(GameError::NotYourTurn)
            &&& forall|other: Seq<char>, next: Cell|
                (#[trigger] after.guess_error(other, next)) is None ==> other == g.players[1
                    - seat].id
        }),
{
}

/// While the opponent's board shows an occupied cell other than the guessed one, a
/// fresh guess of the turn holder at a cell of the board is accepted, does not end
/// the match, and passes the turn to the opponent.
pub proof fn law_ships_afloat_pass_the_turn(g: GameModel, id: Seq<char>, cell: Cell, afloat: Cell)
    requires
        g.wf(),
        g.phase is InProgress,
        g.turn == Some(id),
        cell.in_bounds(),
        !g.players[g.seat_of(id).unwrap()].guesses.contains(cell),
        afloat.in_bounds(),
        afloat != cell,
        grid_at(g.players[1 - g.seat_of(id).unwrap()].board, afloat) == CellState::Occupied,
    ensures
        g.seat_of(id) is Some,
        g.guess_error(id, cell) is None,
        g.after_guess(id, cell).phase is InProgress,
        g.after_guess(id, cell).turn == Some(g.players[1 - g.seat_of(id).unwrap()].id),
        !g.guess_report(id, cell).game_over,
        g.guess_report(id, cell).winner is None,
{
    let seat = g.seat_of(id).unwrap();
    let opp = g.players[1 - seat];
    let target = opp.struck(cell);
    assert(opp.wf());
    assert(opp.ship_at(afloat));
    let (t, k) = choose|t: ShipType, k: int|
        opp.fleet.dom().contains(t) && 0 <= k < opp.fleet[t].len() && (#[trigger] opp.fleet[t][k])
            == afloat;
    lemma_offset_injective(afloat, cell);
    assert(grid_at(target.board, target.fleet[t][k]) == CellState::Occupied);
    assert(!target.sunk());
}

/// A guess that misses never ends the match: the turn passes to the opponent.
pub proof fn law_miss_passes_the_turn(g: GameModel, id: Seq<char>, cell: Cell)
    requires
        g.wf(),
        g.guess_error(id, cell) is None,
        g.guess_report(id, cell).outcome == Outcome::Miss,
    ensures
        g.after_guess(id, cell).phase is InProgress,
        g.after_guess(id, cell).turn == Some(g.players[1 - g.seat_of(id).unwrap()].id),
        !g.guess_report(id, cell).game_over,
{
    let seat = g.seat_of(id).unwrap();
    let opp = g.players[1 - seat];
    let target = opp.struck(cell);
    assert(opp.wf());
    assert(!opp.sunk());
    let (t, k) = choose|t: ShipType, k: int|
        opp.fleet.dom().contains(t) && 0 <= k < opp.fleet[t].len() && grid_at(
            opp.board,
            #[trigger] opp.fleet[t][k],
        ) != CellState::Hit;
    let c = opp.fleet[t][k];
    assert(grid_at(opp.board, c) == CellState::Occupied);
    assert(shape_error(t, opp.fleet[t]) is None);
    assert(c.in_bounds());
    lemma_offset_injective(c, cell);
    assert(grid_at(target.board, target.fleet[t][k]) == CellState::Occupied);
    assert(!target.sunk());
}

/// A free seat is given to every identifier that no seated player has, in every
/// phase: the new player is seated last with nothing placed and nothing guessed,
/// and the phase and the turn stay as they are.
pub proof fn law_free_seat_admits(g: GameModel, id: Seq<char>)
    requires
        g.wf(),
        g.players.len() < 2,
        g.seat_of(id) is None,
    ensures
        g.registration_error(id) is None,
        g.after_registration(id).players == g.players.push(PlayerModel::fresh(id)),
        g.after_registration(id).phase == g.phase,
        g.after_registration(id).turn == g.turn,
        g.after_registration(id).seat_of(id) == Some(g.players.len() as int),
{
}

/// A finished match stays finished: whoever registers, leaves or places a ship,
/// the phase and the winner stay, and every guess is rejected.
pub proof fn law_finished_stays_finished(
    g: GameModel,
    id: Seq<char>,
    ship_type: ShipType,
    cells: Seq<Cell>,
    cell: Cell,
)
    requires
        g.wf(),
        g.phase is Finished,
    ensures
        g.registration_error(id) is None ==> g.after_registration(id).phase == g.phase,
        g.removal_error(id) is None ==> g.after_removal(id).phase == g.phase,
        g.placement_error(id, ship_type, cells) is None ==> g.after_placement(
            id,
            ship_type,
            cells,
        ).phase == g.phase,
        g.guess_error(id, cell) == Some(GameError::GameAlreadyFinished),
{
}

/// Until the match starts nobody holds the turn, and while it is in progress one
/// of the two seated players does, both with ships afloat.
pub proof fn law_turn_belongs_to_play(g: GameModel)
    requires
        g.wf(),
    ensures
        g.phase is Setup ==> g.turn is None,
        g.phase is InProgress ==> g.players.len() == 2 && (g.turn == Some(g.players[0].id)
            || g.turn == Some(g.players[1].id)) && !g.players[0].sunk() && !g.players[1].sunk(),
{
}

/// On a well-formed board the cells that are occupied or hit are exactly the cells
/// of the player's ships, and no cell belongs to two ships.
pub proof fn law_board_shows_the_fleet(p: PlayerModel, cell: Cell)
    requires
        p.wf(),
        cell.in_bounds(),
    ensures
        p.ship_at(cell) <==> (grid_at(p.board, cell) == CellState::Occupied || grid_at(
            p.board,
            cell,
        ) == CellState::Hit),
        p.ships_disjoint(),
{
    if p.ship_at(cell) {
        let (t, k) = choose|t: ShipType, k: int|
            p.fleet.dom().contains(t) && 0 <= k < p.fleet[t].len() && (#[trigger] p.fleet[t][k])
                == cell;
        let s = grid_at(p.board, p.fleet[t][k]);
        assert(s == CellState::Occupied || s == CellState::Hit);
    }
}

/// An accepted guess wins exactly when, with it, the guesser has guessed every cell
/// of the opponent's fleet. The match is then finished with the guesser as winner,
/// and every further guess is rejected with `GameAlreadyFinished`.
pub proof fn law_sinking_the_fleet_wins(g: GameModel, id: Seq<char>, cell: Cell)
    requires
        g.wf(),
        g.guess_error(id, cell) is None,
    ensures
        ({
            let seat = g.seat_of(id).unwrap();
            let after = g.after_guess(id, cell);
            let all_guessed = forall|t: ShipType, k: int|
                g.players[1 - seat].fleet.dom().contains(t) && 0 <= k < g.players[1
                    - seat].fleet[t].len() ==> {
                    let c = #[trigger] g.players[1 - seat].fleet[t][k];
                    c == cell || g.players[seat].guesses.contains(c)
                };
            &&& all_guessed <==> after.phase is Finished
            &&& after.phase is Finished ==> after.phase == (PhaseModel::Finished { winner: id })
            &&& after.phase is Finished ==> forall|other: Seq<char>, next: Cell| #[trigger]
                after.guess_error(other, next) == Some(GameError::GameAlreadyFinished)
        }),
{
    let seat = g.seat_of(id).unwrap();
    let me = g.players[seat];
    let opp = g.players[1 - seat];
    let target = opp.struck(cell);
    let after = g.after_guess(id, cell);
    assert(me.wf());
    assert(opp.wf());
    assert(tracks(me, opp));
    lemma_offset_injective(cell, cell);
    let all_guessed = forall|t: ShipType, k: int|
        opp.fleet.dom().contains(t) && 0 <= k < opp.fleet[t].len() ==> {
            let c = #[trigger] opp.fleet[t][k];
            c == cell || me.guesses.contains(c)
        };
    if all_guessed {
        assert forall|t: ShipType, k: int|
            target.fleet.dom().contains(t) && 0 <= k < target.fleet[t].len() implies grid_at(
            target.board,
            #[trigger] target.fleet[t][k],
        ) == CellState::Hit by {
            let c = opp.fleet[t][k];
            assert(c == cell || me.guesses.contains(c));
            assert(shape_error(t, opp.fleet[t]) is None);
            assert(c.in_bounds());
            lemma_offset_injective(c, cell);
            let s = grid_at(opp.board, c);
            assert(s == CellState::Occupied || s == CellState::Hit);
        }
        assert(target.sunk());
    }
    if target.sunk() {
        assert forall|t: ShipType, k: int|
            opp.fleet.dom().contains(t) && 0 <= k < opp.fleet[t].len() implies {
            let c = #[trigger] opp.fleet[t][k];
            c == cell || me.guesses.contains(c)
        } by {
            let c = opp.fleet[t][k];
            assert(shape_error(t, opp.fleet[t]) is None);
            assert(c.in_bounds());
            lemma_offset_injective(c, cell);
            assert(grid_at(target.board, target.fleet[t][k]) == CellState::Hit);
            if c != cell {
                assert(grid_at(opp.board, c) == CellState::Hit);
            }
        }
    }
}

/// An accepted guess changes one cell of the opponent's board and nothing else of
/// the opponent: an occupied cell becomes a hit, an empty one a miss. The fleets of
/// both players and the guesser's board stay as they were.
pub proof fn law_guess_marks_one_cell(g: GameModel, id: Seq<char>, cell: Cell)
    requires
        g.wf(),
        g.guess_error(id, cell) is None,
    ensures
        ({
            let seat = g.seat_of(id).unwrap();
            let before = g.players[1 - seat];
            let after = g.after_guess(id, cell).players[1 - seat];
            &&& grid_at(before.board, cell) == CellState::Occupied ==> grid_at(after.board, cell)
                == CellState::Hit
            &&& grid_at(before.board, cell) == CellState::Empty ==> grid_at(after.board, cell)
                == CellState::Miss
            &&& grid_at(before.board, cell) == CellState::Occupied || grid_at(before.board, cell)
                == CellState::Empty
            &&& forall|c: Cell|
                c.in_bounds() && c != cell ==> #[trigger] grid_at(after.board, c) == grid_at(
                    before.board,
                    c,
                )
            &&& after.fleet == before.fleet
            &&& after.guesses == before.guesses
            &&& g.after_guess(id, cell).players[seat].fleet == g.players[seat].fleet
            &&& g.after_guess(id, cell).players[seat].board == g.players[seat].board
        }),
{
    let seat = g.seat_of(id).unwrap();
    let me = g.players[seat];
    let before = g.players[1 - seat];
    let after = g.after_guess(id, cell).players[1 - seat];
    assert(before.wf());
    assert(tracks(me, before));
    assert(!me.guesses.contains(cell));
    lemma_offset_injective(cell, cell);
    assert forall|c: Cell| c.in_bounds() && c != cell implies #[trigger] grid_at(after.board, c)
        == grid_at(before.board, c) by {
        lemma_offset_injective(c, cell);
    }
}

/// An accepted placement adds its type, and no other, to the types that the player
/// has placed; the ships placed before stay as they were.
pub proof fn law_placed_types_grow(
    g: GameModel,
    id: Seq<char>,
    ship_type: ShipType,
    cells: Seq<Cell>,
)
    requires
        g.wf(),
        g.placement_error(id, ship_type, cells) is None,
    ensures
        ({
            let seat = g.seat_of(id).unwrap();
            let before = g.players[seat].fleet;
            let after = g.after_placement(id, ship_type, cells).players[seat].fleet;
            &&& !before.dom().contains(ship_type)
            &&& after.dom() == before.dom().insert(ship_type)
            &&& after[ship_type] == cells
            &&& forall|t: ShipType| #[trigger] before.dom().contains(t) ==> after[t] == before[t]
        }),
{
}

/// The view handed to a player never shows an occupied cell in the opponent's
/// place. With an opponent seated, every cell of the opponent's board appears as it
/// is, except that an occupied cell appears empty; without one, every cell appears
/// empty.
pub proof fn law_view_conceals_ships(g: GameModel, id: Seq<char>)
    requires
        g.wf(),
        g.seat_of(id) is Some,
    ensures
        ({
            let seat = g.seat_of(id).unwrap();
            let shown = g.view_for(id).opponent_board;
            &&& g.view_for(id).own_board == g.players[seat].board
            &&& shown.len() == BOARD_CELLS
            &&& forall|i: int| 0 <= i < shown.len() ==> shown[i] != CellState::Occupied
            &&& count_cells(shown, CellState::Occupied) == 0
            &&& g.players.len() == 2 ==> {
                let actual = g.players[1 - seat].board;
                &&& forall|c: Cell|
                    c.in_bounds() ==> #[trigger] grid_at(shown, c) == grid_at(
                        actual,
                        c,
                    ).concealed()
                &&& count_cells(shown, CellState::Hit) == count_cells(actual, CellState::Hit)
                &&& count_cells(shown, CellState::Miss) == count_cells(actual, CellState::Miss)
            }
            &&& g.players.len() == 1 ==> forall|i: int|
                0 <= i < shown.len() ==> shown[i] == CellState::Empty
        }),
{
    let seat = g.seat_of(id).unwrap();
    let shown = g.view_for(id).opponent_board;
    lemma_count_zero(shown, CellState::Occupied);
    if g.players.len() == 2 {
        let actual = g.players[1 - seat].board;
        assert(g.players[1 - seat].wf());
        lemma_concealed_grid(actual);
        assert forall|c: Cell| c.in_bounds() implies #[trigger] grid_at(shown, c) == grid_at(
            actual,
            c,
        ).concealed() by {
            lemma_offset_injective(c, c);
        }
    }
}

/// No accepted operation moves the phase backwards.
pub proof fn law_phase_never_regresses(
    g: GameModel,
    id: Seq<char>,
    ship_type: ShipType,
    cells: Seq<Cell>,
    cell: Cell,
)
    requires
        g.wf(),
    ensures
        g.registration_error(id) is None ==> phase_rank(g.after_registration(id).phase)
            == phase_rank(g.phase),
        g.removal_error(id) is None ==> phase_rank(g.after_removal(id).phase) >= phase_rank(
            g.phase,
        ),
        g.placement_error(id, ship_type, cells) is None ==> phase_rank(
            g.after_placement(id, ship_type, cells).phase,
        ) >= phase_rank(g.phase),
        g.guess_error(id, cell) is None ==> phase_rank(g.after_guess(id, cell).phase)
            >= phase_rank(g.phase),
        phase_rank(g.without_events().phase) == phase_rank(g.phase),
{
}

} // verus!
