use battleship::board::Cell;
use battleship::board::CellState;
use battleship::error::GameError;
use battleship::game::Event;
use battleship::game::Phase;
use battleship::player::Outcome;
use battleship::service::BattleShipService;
use battleship::service::ShipPlacement;

fn row(y: u32, len: u32) -> Vec<Cell> {
    (0..len).map(|x| Cell::new(x, y)).collect()
}

fn placement(id: &str, ship_type: &str, cells: Vec<Cell>) -> ShipPlacement {
    ShipPlacement { player_id: id.to_string(), ship_type: ship_type.to_string(), cells }
}

fn place_fleet(service: &mut BattleShipService, id: &str) {
    let layout = [("carrier", 5), ("battleship", 4), ("cruiser", 3), ("submarine", 3), ("destroyer", 2)];
    for (y, (name, len)) in layout.iter().enumerate() {
        assert_eq!(service.place_ship(placement(id, name, row(y as u32, *len))), Ok(()));
    }
}

fn started() -> (BattleShipService, String, String) {
    let mut service = BattleShipService::new();
    let a = service.register_player().unwrap();
    let b = service.register_player().unwrap();
    place_fleet(&mut service, &a);
    place_fleet(&mut service, &b);
    (service, a, b)
}

fn fleet_cells() -> Vec<Cell> {
    let mut cells = Vec::new();
    for (y, len) in [5u32, 4, 3, 3, 2].iter().enumerate() {
        cells.extend(row(y as u32, *len));
    }
    cells
}

#[test]
fn guess_before_start_is_not_in_progress() {
    let mut service = BattleShipService::new();
    let a = service.register_player().unwrap();
    let b = service.register_player().unwrap();
    let cells = vec![Cell::new(0, 0), Cell::new(0, 1)];
    assert_eq!(service.place_ship(placement(&a, "destroyer", cells)), Ok(()));
    let r = service.make_guess(&b, Cell::new(0, 0));
    assert_eq!(r.unwrap_err(), GameError::NotInProgress);
    let view = service.get_game_state(&a).unwrap();
    assert_eq!(view.own_board.get(Cell::new(0, 0)), Some(CellState::Occupied));
    assert_eq!(view.own_board.get(Cell::new(0, 1)), Some(CellState::Occupied));
    assert!(matches!(view.phase, Phase::Setup));
}

#[test]
fn first_guess_on_a_ship_hits_and_passes_the_turn() {
    let (mut service, a, b) = started();
    assert!(matches!(service.game_state().phase(), Phase::InProgress));
    assert_eq!(service.game_state().turn(), Some(a.clone()));
    let result = service.make_guess(&a, Cell::new(0, 0)).unwrap();
    assert_eq!(result.outcome, Outcome::Hit);
    assert!(!result.game_over);
    assert_eq!(result.winner, None);
    let view = service.get_game_state(&b).unwrap();
    assert_eq!(view.own_board.get(Cell::new(0, 0)), Some(CellState::Hit));
    assert_eq!(view.turn, Some(b.clone()));
    assert_eq!(service.game_state().turn(), Some(b));
}

#[test]
fn gap_in_a_destroyer_is_not_contiguous() {
    let mut service = BattleShipService::new();
    let a = service.register_player().unwrap();
    let cells = vec![Cell::new(0, 0), Cell::new(0, 2)];
    assert_eq!(service.place_ship(placement(&a, "destroyer", cells)), Err(GameError::NotContiguous));
    let view = service.get_game_state(&a).unwrap();
    assert_eq!(view.own_board.count(CellState::Occupied), 0);
}

#[test]
fn complete_fleets_occupy_seventeen_cells() {
    let (service, a, b) = started();
    for id in [&a, &b] {
        let view = service.get_game_state(id).unwrap();
        assert_eq!(view.own_board.count(CellState::Occupied), 17);
        assert_eq!(view.own_board.count(CellState::Empty), 83);
        assert_eq!(view.own_board.count(CellState::Hit), 0);
        assert_eq!(view.own_board.count(CellState::Miss), 0);
    }
    assert_eq!(service.game_state().player(0).unwrap().fleet().len(), 5);
    assert!(service.game_state().player(1).unwrap().fleet().is_complete());
}

#[test]
fn each_placement_adds_its_length() {
    let mut service = BattleShipService::new();
    let a = service.register_player().unwrap();
    let mut expected = 0;
    for (y, (name, len)) in [("destroyer", 2u32), ("submarine", 3), ("carrier", 5)].iter().enumerate() {
        assert_eq!(service.place_ship(placement(&a, name, row(y as u32, *len))), Ok(()));
        expected += *len as usize;
        let view = service.get_game_state(&a).unwrap();
        assert_eq!(view.own_board.count(CellState::Occupied), expected);
    }
}

#[test]
fn second_ship_of_a_type_is_a_duplicate() {
    let mut service = BattleShipService::new();
    let a = service.register_player().unwrap();
    assert_eq!(service.place_ship(placement(&a, "cruiser", row(0, 3))), Ok(()));
    let r = service.place_ship(placement(&a, "cruiser", row(5, 3)));
    assert_eq!(r, Err(GameError::DuplicateShipType));
    let view = service.get_game_state(&a).unwrap();
    assert_eq!(view.own_board.count(CellState::Occupied), 3);
    assert_eq!(view.own_board.get(Cell::new(0, 5)), Some(CellState::Empty));
    let fleet = service.game_state().player(0).unwrap().fleet();
    assert_eq!(fleet.len(), 1);
    // The duplicate outranks every other fault of the message.
    let r = service.place_ship(placement(&a, "cruiser", vec![Cell::new(50, 50)]));
    assert_eq!(r, Err(GameError::DuplicateShipType));
}

#[test]
fn guesser_cannot_guess_twice_in_a_row() {
    let (mut service, a, b) = started();
    assert!(service.make_guess(&a, Cell::new(9, 9)).is_ok());
    let r = service.make_guess(&a, Cell::new(8, 8));
    assert_eq!(r.unwrap_err(), GameError::NotYourTurn);
    let r = service.make_guess(&a, Cell::new(9, 9));
    assert_eq!(r.unwrap_err(), GameError::NotYourTurn);
    assert!(service.make_guess(&b, Cell::new(9, 9)).is_ok());
    assert_eq!(service.game_state().turn(), Some(a));
}

#[test]
fn second_player_cannot_open_the_match() {
    let (mut service, _a, b) = started();
    let r = service.make_guess(&b, Cell::new(0, 0));
    assert_eq!(r.unwrap_err(), GameError::NotYourTurn);
    let r = service.make_guess("nobody", Cell::new(0, 0));
    assert_eq!(r.unwrap_err(), GameError::NotYourTurn);
}

#[test]
fn repeated_guess_is_a_duplicate() {
    let (mut service, a, b) = started();
    let first = service.make_guess(&a, Cell::new(9, 9)).unwrap();
    assert_eq!(first.outcome, Outcome::Miss);
    assert!(service.make_guess(&b, Cell::new(9, 9)).is_ok());
    let before = service.get_game_state(&b).unwrap();
    let r = service.make_guess(&a, Cell::new(9, 9));
    assert_eq!(r.unwrap_err(), GameError::DuplicateGuess);
    let after = service.get_game_state(&b).unwrap();
    assert_eq!(after.own_board.count(CellState::Miss), before.own_board.count(CellState::Miss));
    assert_eq!(service.game_state().turn(), Some(a.clone()));
    assert_eq!(service.game_state().player(0).unwrap().guesses().len(), 1);
    assert!(service.game_state().player(0).unwrap().has_guessed(Cell::new(9, 9)));
    assert!(!service.game_state().player(0).unwrap().has_guessed(Cell::new(9, 8)));
}

#[test]
fn guess_off_the_board_is_out_of_bounds() {
    let (mut service, a, _b) = started();
    assert_eq!(service.make_guess(&a, Cell::new(10, 0)).unwrap_err(), GameError::OutOfBounds);
    assert_eq!(service.make_guess(&a, Cell::new(0, 10)).unwrap_err(), GameError::OutOfBounds);
    assert_eq!(service.make_guess(&a, Cell::new(u32::MAX, u32::MAX)).unwrap_err(), GameError::OutOfBounds);
    assert!(service.make_guess(&a, Cell::new(9, 9)).is_ok());
}

#[test]
fn sinking_every_ship_cell_wins() {
    let (mut service, a, b) = started();
    let targets = fleet_cells();
    assert_eq!(targets.len(), 17);
    let mut filler = (0..10u32).flat_map(|x| (5..10u32).map(move |y| Cell::new(x, y)));
    for (i, cell) in targets.iter().enumerate() {
        let result = service.make_guess(&a, *cell).unwrap();
        assert_eq!(result.outcome, Outcome::Hit);
        if i + 1 < targets.len() {
            assert!(!result.game_over);
            assert_eq!(result.winner, None);
            let reply = service.make_guess(&b, filler.next().unwrap()).unwrap();
            assert_eq!(reply.outcome, Outcome::Miss);
            assert!(!reply.game_over);
        } else {
            assert!(result.game_over);
            assert_eq!(result.winner, Some(a.clone()));
        }
    }
    match service.game_state().phase() {
        Phase::Finished { winner } => assert_eq!(winner, a),
        other => panic!("unexpected phase {:?}", other),
    }
    // The turn stays where it was when the match ended.
    assert_eq!(service.game_state().turn(), Some(a.clone()));
    assert_eq!(service.make_guess(&a, Cell::new(9, 9)).unwrap_err(), GameError::GameAlreadyFinished);
    assert_eq!(service.make_guess(&b, Cell::new(9, 9)).unwrap_err(), GameError::GameAlreadyFinished);
    let view = service.get_game_state(&b).unwrap();
    assert_eq!(view.own_board.count(CellState::Hit), 17);
    assert_eq!(view.own_board.count(CellState::Occupied), 0);
    assert!(service.game_state().player(1).unwrap().is_sunk());
    assert!(!service.game_state().player(0).unwrap().is_sunk());
}

#[test]
fn opponent_ships_are_concealed() {
    let (mut service, a, b) = started();
    assert!(service.make_guess(&a, Cell::new(0, 0)).is_ok());
    assert!(service.make_guess(&b, Cell::new(9, 9)).is_ok());
    let view = service.get_game_state(&a).unwrap();
    assert_eq!(view.opponent_board.count(CellState::Occupied), 0);
    assert_eq!(view.opponent_board.count(CellState::Hit), 1);
    assert_eq!(view.opponent_board.count(CellState::Miss), 0);
    assert_eq!(view.opponent_board.get(Cell::new(0, 0)), Some(CellState::Hit));
    assert_eq!(view.opponent_board.get(Cell::new(1, 0)), Some(CellState::Empty));
    assert_eq!(view.own_board.count(CellState::Occupied), 17);
    assert_eq!(view.own_board.get(Cell::new(9, 9)), Some(CellState::Miss));
    let view = service.get_game_state(&b).unwrap();
    assert_eq!(view.opponent_board.count(CellState::Occupied), 0);
    assert_eq!(view.opponent_board.get(Cell::new(9, 9)), Some(CellState::Miss));
    assert_eq!(view.own_board.count(CellState::Occupied), 16);
    assert!(matches!(view.phase, Phase::InProgress));
}

#[test]
fn view_without_opponent_shows_an_empty_board() {
    let mut service = BattleShipService::new();
    let a = service.register_player().unwrap();
    assert_eq!(service.place_ship(placement(&a, "carrier", row(0, 5))), Ok(()));
    let view = service.get_game_state(&a).unwrap();
    assert_eq!(view.opponent_board.count(CellState::Empty), 100);
    assert_eq!(view.own_board.count(CellState::Occupied), 5);
    assert_eq!(view.turn, None);
    assert_eq!(service.get_game_state("nobody").unwrap_err(), GameError::UnknownPlayer);
}

#[test]
fn events_follow_the_transitions() {
    let mut service = BattleShipService::new();
    let a = service.register_player().unwrap();
    let b = service.register_player().unwrap();
    let events = service.take_events();
    assert_eq!(events.len(), 2);
    assert!(matches!(&events[0], Event::PlayerJoined { player } if *player == a));
    assert!(matches!(&events[1], Event::PlayerJoined { player } if *player == b));
    assert!(service.take_events().is_empty());
    place_fleet(&mut service, &b);
    assert!(service.take_events().is_empty());
    place_fleet(&mut service, &a);
    let events = service.take_events();
    assert_eq!(events.len(), 1);
    assert!(matches!(&events[0], Event::TurnChanged { player } if *player == a));
    assert!(service.make_guess(&a, Cell::new(1, 0)).is_ok());
    let events = service.take_events();
    assert_eq!(events.len(), 2);
    assert!(matches!(
        &events[0],
        Event::GuessMade { player, cell, outcome: Outcome::Hit } if *player == a && *cell == Cell::new(1, 0)
    ));
    assert!(matches!(&events[1], Event::TurnChanged { player } if *player == b));
    assert!(service.make_guess(&a, Cell::new(2, 0)).is_err());
    assert!(service.take_events().is_empty());
}

#[test]
fn leaving_in_progress_forfeits() {
    let (mut service, a, b) = started();
    service.take_events();
    assert_eq!(service.remove_player(&a), Ok(()));
    match service.game_state().phase() {
        Phase::Finished { winner } => assert_eq!(winner, b),
        other => panic!("unexpected phase {:?}", other),
    }
    let events = service.take_events();
    assert_eq!(events.len(), 2);
    assert!(matches!(&events[0], Event::PlayerLeft { player } if *player == a));
    assert!(matches!(&events[1], Event::GameOver { winner } if *winner == b));
    assert_eq!(service.game_state().player_count(), 1);
    assert_eq!(service.make_guess(&b, Cell::new(0, 0)).unwrap_err(), GameError::GameAlreadyFinished);
    assert_eq!(service.remove_player(&a), Err(GameError::UnknownPlayer));
}

#[test]
fn free_seat_of_a_finished_match_can_be_taken() {
    let (mut service, a, b) = started();
    assert_eq!(service.remove_player(&a), Ok(()));
    service.take_events();
    let c = service.register_player().unwrap();
    assert_ne!(c, a);
    assert_ne!(c, b);
    assert_eq!(service.game_state().player_count(), 2);
    assert_eq!(service.game_state().player(0).unwrap().id(), &b);
    assert_eq!(service.game_state().player(1).unwrap().id(), &c);
    let events = service.take_events();
    assert_eq!(events.len(), 1);
    assert!(matches!(&events[0], Event::PlayerJoined { player } if *player == c));
    assert_eq!(service.register_player().unwrap_err(), GameError::GameFull);
    // The late player starts with nothing placed and nothing guessed.
    let view = service.get_game_state(&c).unwrap();
    assert_eq!(view.own_board.count(CellState::Empty), 100);
    assert_eq!(view.opponent_board.count(CellState::Occupied), 0);
    match view.phase {
        Phase::Finished { winner } => assert_eq!(winner, b),
        other => panic!("unexpected phase {:?}", other),
    }
    // Ships may be placed, but a second complete fleet does not start the match again.
    place_fleet(&mut service, &c);
    assert_eq!(service.get_game_state(&c).unwrap().own_board.count(CellState::Occupied), 17);
    assert!(service.take_events().is_empty());
    match service.game_state().phase() {
        Phase::Finished { winner } => assert_eq!(winner, b),
        other => panic!("unexpected phase {:?}", other),
    }
    assert_eq!(
        service.place_ship(placement(&c, "carrier", row(9, 5))),
        Err(GameError::DuplicateShipType)
    );
    assert_eq!(service.make_guess(&c, Cell::new(0, 0)).unwrap_err(), GameError::GameAlreadyFinished);
    assert_eq!(service.make_guess(&b, Cell::new(0, 0)).unwrap_err(), GameError::GameAlreadyFinished);
    assert_eq!(service.remove_player(&c), Ok(()));
    assert_eq!(service.game_state().player_count(), 1);
}

#[test]
fn free_seat_after_a_win_can_be_taken() {
    let (mut service, a, b) = started();
    let targets = fleet_cells();
    let mut filler = (0..10u32).flat_map(|x| (5..10u32).map(move |y| Cell::new(x, y)));
    for (i, cell) in targets.iter().enumerate() {
        assert!(service.make_guess(&a, *cell).is_ok());
        if i + 1 < targets.len() {
            assert!(service.make_guess(&b, filler.next().unwrap()).is_ok());
        }
    }
    assert_eq!(service.register_player().unwrap_err(), GameError::GameFull);
    assert_eq!(service.remove_player(&b), Ok(()));
    let c = service.register_player().unwrap();
    assert_eq!(service.place_ship(placement(&c, "destroyer", row(0, 2))), Ok(()));
    match service.game_state().phase() {
        Phase::Finished { winner } => assert_eq!(winner, a),
        other => panic!("unexpected phase {:?}", other),
    }
    // The winner's board keeps the misses it took; the late player sees them.
    let view = service.get_game_state(&c).unwrap();
    assert_eq!(view.opponent_board.count(CellState::Miss), 16);
    assert_eq!(view.opponent_board.count(CellState::Occupied), 0);
    assert_eq!(view.own_board.count(CellState::Occupied), 2);
}

#[test]
fn a_miss_passes_the_turn() {
    let (mut service, a, b) = started();
    let result = service.make_guess(&a, Cell::new(9, 9)).unwrap();
    assert_eq!(result.outcome, Outcome::Miss);
    assert!(!result.game_over);
    assert_eq!(result.winner, None);
    assert!(matches!(service.game_state().phase(), Phase::InProgress));
    assert_eq!(service.game_state().turn(), Some(b.clone()));
    let view = service.get_game_state(&b).unwrap();
    assert_eq!(view.own_board.get(Cell::new(9, 9)), Some(CellState::Miss));
    assert_eq!(view.own_board.count(CellState::Occupied), 17);
}

#[test]
fn nobody_holds_the_turn_during_setup() {
    let mut service = BattleShipService::new();
    assert_eq!(service.game_state().turn(), None);
    let a = service.register_player().unwrap();
    let b = service.register_player().unwrap();
    place_fleet(&mut service, &a);
    assert_eq!(service.game_state().turn(), None);
    assert_eq!(service.remove_player(&b), Ok(()));
    assert_eq!(service.game_state().turn(), None);
    assert!(matches!(service.game_state().phase(), Phase::Setup));
}

#[test]
fn leaving_during_setup_frees_the_seat() {
    let mut service = BattleShipService::new();
    let a = service.register_player().unwrap();
    let b = service.register_player().unwrap();
    assert_eq!(service.register_player().unwrap_err(), GameError::GameFull);
    assert_eq!(service.remove_player(&a), Ok(()));
    assert!(matches!(service.game_state().phase(), Phase::Setup));
    assert_eq!(service.game_state().player(0).unwrap().id(), &b);
    let c = service.register_player().unwrap();
    assert_eq!(service.game_state().player(1).unwrap().id(), &c);
    place_fleet(&mut service, &c);
    place_fleet(&mut service, &b);
    // The first seat moves first.
    assert_eq!(service.game_state().turn(), Some(b));
}
