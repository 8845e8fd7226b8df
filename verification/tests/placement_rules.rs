use battleship::board::Board;
use battleship::board::Cell;
use battleship::board::CellState;
use battleship::catalog::ShipType;
use battleship::error::GameError;
use battleship::fleet::Fleet;
use battleship::game::GameState;
use battleship::game::Phase;
use battleship::player::PlayerState;
use battleship::service::BattleShipService;
use battleship::service::PlacementSession;
use battleship::service::ShipPlacement;
use battleship::ship::check_shape;
use battleship::ship::is_contiguous;
use battleship::ship::Ship;
use battleship::text::same_text;

fn message(id: &str, ship_type: &str, cells: &[(u32, u32)]) -> ShipPlacement {
    ShipPlacement {
        player_id: id.to_string(),
        ship_type: ship_type.to_string(),
        cells: cells.iter().map(|(x, y)| Cell::new(*x, *y)).collect(),
    }
}

fn cells(list: &[(u32, u32)]) -> Vec<Cell> {
    list.iter().map(|(x, y)| Cell::new(*x, *y)).collect()
}

#[test]
fn catalog_lengths() {
    assert_eq!(ShipType::Carrier.length(), 5);
    assert_eq!(ShipType::Battleship.length(), 4);
    assert_eq!(ShipType::Cruiser.length(), 3);
    assert_eq!(ShipType::Submarine.length(), 3);
    assert_eq!(ShipType::Destroyer.length(), 2);
    let total: usize = (0..5).map(|slot| ShipType::at(slot).length()).sum();
    assert_eq!(total, battleship::catalog::FLEET_CELLS);
    for slot in 0..5 {
        assert_eq!(ShipType::at(slot).slot(), slot);
    }
}

#[test]
fn ship_type_names() {
    assert_eq!(ShipType::from_name("carrier"), Some(ShipType::Carrier));
    assert_eq!(ShipType::from_name("battleship"), Some(ShipType::Battleship));
    assert_eq!(ShipType::from_name("cruiser"), Some(ShipType::Cruiser));
    assert_eq!(ShipType::from_name("submarine"), Some(ShipType::Submarine));
    assert_eq!(ShipType::from_name("destroyer"), Some(ShipType::Destroyer));
    assert_eq!(ShipType::from_name("Carrier"), None);
    assert_eq!(ShipType::from_name("frigate"), None);
    assert_eq!(ShipType::from_name(""), None);
    assert_eq!(ShipType::from_name("carrier "), None);
}

#[test]
fn text_comparison() {
    assert!(same_text("", ""));
    assert!(same_text("abc", "abc"));
    assert!(!same_text("abc", "abd"));
    assert!(!same_text("abc", "ab"));
    assert!(same_text("übung", "übung"));
    assert!(!same_text("übung", "ubung"));
}

#[test]
fn player_state_starts_empty() {
    let p = PlayerState::new("alice".to_string());
    assert_eq!(p.id(), "alice");
    assert_eq!(p.fleet().len(), 0);
    assert!(!p.fleet().is_complete());
    assert!(p.guesses().is_empty());
    assert_eq!(p.board().count(CellState::Empty), 100);
    assert!(!p.has_guessed(Cell::new(0, 0)));
    // An empty fleet has no cell left afloat.
    assert!(p.is_sunk());
    assert_eq!(p.check_placement(ShipType::Destroyer, &cells(&[(0, 0), (1, 0)])), None);
    assert_eq!(
        p.check_placement(ShipType::Destroyer, &cells(&[(0, 0)])),
        Some(GameError::WrongLength)
    );
}

#[test]
fn board_cells() {
    let mut board = Board::new();
    assert_eq!(board.get(Cell::new(3, 4)), Some(CellState::Empty));
    assert_eq!(board.get(Cell::new(10, 4)), None);
    assert_eq!(board.get(Cell::new(3, 10)), None);
    board.set(Cell::new(3, 4), CellState::Occupied);
    board.set(Cell::new(9, 9), CellState::Miss);
    board.set(Cell::new(0, 0), CellState::Hit);
    assert_eq!(board.at(Cell::new(3, 4)), CellState::Occupied);
    assert_eq!(board.get(Cell::new(4, 3)), Some(CellState::Empty));
    assert_eq!(board.count(CellState::Occupied), 1);
    assert_eq!(board.count(CellState::Empty), 97);
    let copy = board.snapshot();
    assert_eq!(copy.get(Cell::new(3, 4)), Some(CellState::Occupied));
    let shown = board.concealed();
    assert_eq!(shown.get(Cell::new(3, 4)), Some(CellState::Empty));
    assert_eq!(shown.get(Cell::new(9, 9)), Some(CellState::Miss));
    assert_eq!(shown.get(Cell::new(0, 0)), Some(CellState::Hit));
    assert_eq!(shown.count(CellState::Occupied), 0);
    assert_eq!(CellState::Occupied.conceal(), CellState::Empty);
    assert_eq!(CellState::Hit.conceal(), CellState::Hit);
    assert!(Cell::new(9, 9).is_in_bounds());
    assert!(!Cell::new(10, 9).is_in_bounds());
}

#[test]
fn contiguity() {
    assert!(is_contiguous(&cells(&[(0, 0), (1, 0), (2, 0)])));
    assert!(is_contiguous(&cells(&[(2, 0), (1, 0), (0, 0)])));
    assert!(is_contiguous(&cells(&[(4, 4), (4, 5), (4, 6)])));
    assert!(is_contiguous(&cells(&[(4, 6), (4, 5), (4, 4)])));
    assert!(is_contiguous(&cells(&[(4, 6)])));
    assert!(is_contiguous(&cells(&[])));
    assert!(!is_contiguous(&cells(&[(0, 0), (0, 2)])));
    assert!(!is_contiguous(&cells(&[(0, 0), (1, 1)])));
    assert!(!is_contiguous(&cells(&[(0, 0), (1, 0), (1, 1)])));
    assert!(!is_contiguous(&cells(&[(0, 0), (1, 0), (0, 0)])));
    assert!(!is_contiguous(&cells(&[(0, 0), (0, 0)])));
    assert!(!is_contiguous(&cells(&[(u32::MAX, 0), (0, 0)])));
}

#[test]
fn shape_errors_in_order() {
    assert_eq!(check_shape(ShipType::Cruiser, &cells(&[(0, 0), (0, 1)])), Some(GameError::WrongLength));
    assert_eq!(
        check_shape(ShipType::Cruiser, &cells(&[(0, 0), (0, 50)])),
        Some(GameError::WrongLength)
    );
    assert_eq!(
        check_shape(ShipType::Cruiser, &cells(&[(8, 0), (9, 0), (10, 0)])),
        Some(GameError::OutOfBounds)
    );
    assert_eq!(
        check_shape(ShipType::Cruiser, &cells(&[(0, 0), (5, 5), (10, 0)])),
        Some(GameError::OutOfBounds)
    );
    assert_eq!(
        check_shape(ShipType::Cruiser, &cells(&[(0, 0), (1, 0), (3, 0)])),
        Some(GameError::NotContiguous)
    );
    assert_eq!(check_shape(ShipType::Cruiser, &cells(&[(7, 9), (8, 9), (9, 9)])), None);
    assert!(Ship::new(ShipType::Destroyer, cells(&[(0, 0), (0, 1)])).is_ok());
    assert_eq!(
        Ship::new(ShipType::Destroyer, cells(&[(0, 0), (0, 2)])).unwrap_err(),
        GameError::NotContiguous
    );
    let ship = Ship::new(ShipType::Carrier, cells(&[(5, 5), (5, 4), (5, 3), (5, 2), (5, 1)])).unwrap();
    assert_eq!(ship.ship_type, ShipType::Carrier);
    assert_eq!(ship.cells[4], Cell::new(5, 1));
}

#[test]
fn fleet_holds_one_ship_per_type() {
    let mut fleet = Fleet::new();
    assert!(!fleet.contains(ShipType::Cruiser));
    assert!(fleet.get(ShipType::Cruiser).is_none());
    fleet.insert(Ship::new(ShipType::Cruiser, cells(&[(0, 0), (1, 0), (2, 0)])).unwrap());
    assert!(fleet.contains(ShipType::Cruiser));
    assert!(!fleet.contains(ShipType::Submarine));
    assert_eq!(fleet.get(ShipType::Cruiser).unwrap().cells.len(), 3);
    assert_eq!(fleet.len(), 1);
    assert!(!fleet.is_complete());
}

#[test]
fn placement_errors() {
    let mut service = BattleShipService::new();
    let a = service.register_player().unwrap();
    assert_eq!(
        service.place_ship(message(&a, "frigate", &[(0, 0), (0, 1)])),
        Err(GameError::InvalidShipType)
    );
    assert_eq!(
        service.place_ship(message("nobody", "frigate", &[(0, 0), (0, 1)])),
        Err(GameError::InvalidShipType)
    );
    assert_eq!(
        service.place_ship(message("nobody", "destroyer", &[(0, 0), (0, 1)])),
        Err(GameError::UnknownPlayer)
    );
    assert_eq!(
        service.place_ship(message(&a, "destroyer", &[(0, 0), (0, 1), (0, 2)])),
        Err(GameError::WrongLength)
    );
    assert_eq!(service.place_ship(message(&a, "destroyer", &[])), Err(GameError::WrongLength));
    assert_eq!(
        service.place_ship(message(&a, "destroyer", &[(9, 9), (10, 9)])),
        Err(GameError::OutOfBounds)
    );
    assert_eq!(
        service.place_ship(message(&a, "destroyer", &[(0, 0), (1, 1)])),
        Err(GameError::NotContiguous)
    );
    assert_eq!(service.place_ship(message(&a, "destroyer", &[(3, 3), (3, 4)])), Ok(()));
    assert_eq!(
        service.place_ship(message(&a, "cruiser", &[(2, 4), (3, 4), (4, 4)])),
        Err(GameError::Overlap)
    );
    assert_eq!(
        service.place_ship(message(&a, "destroyer", &[(6, 6), (6, 7)])),
        Err(GameError::DuplicateShipType)
    );
    let view = service.get_game_state(&a).unwrap();
    assert_eq!(view.own_board.count(CellState::Occupied), 2);
    assert_eq!(view.own_board.get(Cell::new(3, 3)), Some(CellState::Occupied));
    assert_eq!(view.own_board.get(Cell::new(3, 4)), Some(CellState::Occupied));
    assert_eq!(view.own_board.get(Cell::new(2, 4)), Some(CellState::Empty));
    assert_eq!(service.place_ship(message(&a, "cruiser", &[(3, 5), (3, 6), (3, 7)])), Ok(()));
}

#[test]
fn placement_stream_stops_at_the_first_rejection() {
    let mut service = BattleShipService::new();
    let a = service.register_player().unwrap();
    let mut session = PlacementSession::new();
    assert_eq!(session.finish(), Err(GameError::EmptyStream));
    session = service.place_next(session, message(&a, "destroyer", &[(0, 0), (0, 1)]));
    assert_eq!(session, PlacementSession { committed: 1, aborted: None });
    session = service.place_next(session, message(&a, "cruiser", &[(0, 1), (1, 1), (2, 1)]));
    assert_eq!(session, PlacementSession { committed: 1, aborted: Some(GameError::Overlap) });
    session = service.place_next(session, message(&a, "carrier", &[(0, 5), (1, 5), (2, 5), (3, 5), (4, 5)]));
    assert_eq!(session, PlacementSession { committed: 1, aborted: Some(GameError::Overlap) });
    assert_eq!(session.finish(), Err(GameError::Overlap));
    // What was committed before the rejection stands; what followed it was dropped.
    let view = service.get_game_state(&a).unwrap();
    assert_eq!(view.own_board.count(CellState::Occupied), 2);
    let mut retry = PlacementSession::new();
    retry = service.place_next(retry, message(&a, "cruiser", &[(1, 1), (2, 1), (3, 1)]));
    retry = service.place_next(retry, message(&a, "carrier", &[(0, 5), (1, 5), (2, 5), (3, 5), (4, 5)]));
    assert_eq!(retry.finish(), Ok(2));
}

#[test]
fn registration_issues_distinct_uuids() {
    let mut service = BattleShipService::new();
    let a = service.register_player().unwrap();
    let b = service.register_player().unwrap();
    assert_ne!(a, b);
    for id in [&a, &b] {
        let chars: Vec<char> = id.chars().collect();
        assert_eq!(chars.len(), 36);
        for (i, c) in chars.iter().enumerate() {
            if i == 8 || i == 13 || i == 18 || i == 23 {
                assert_eq!(*c, '-');
            } else {
                assert!(matches!(*c, '0'..='9' | 'a'..='f'));
            }
        }
        assert_eq!(chars[14], '4');
        assert!(matches!(chars[19], '8' | '9' | 'a' | 'b'));
    }
    assert_eq!(service.game_state().player(0).unwrap().id(), &a);
    assert_eq!(service.game_state().player(1).unwrap().id(), &b);
    assert!(service.game_state().player(2).is_none());
}

#[test]
fn registration_under_a_given_identifier() {
    let mut service = BattleShipService::new();
    assert_eq!(service.register_player_as("alice".to_string()), Ok("alice".to_string()));
    assert_eq!(
        service.register_player_as("alice".to_string()),
        Err(GameError::IdentifierTaken)
    );
    assert_eq!(service.register_player_as("bob".to_string()), Ok("bob".to_string()));
    assert_eq!(service.register_player_as("carol".to_string()), Err(GameError::GameFull));
    assert_eq!(service.game_state().player_count(), 2);
}

#[test]
fn game_state_directly() {
    let mut game = GameState::new();
    assert!(matches!(game.phase(), Phase::Setup));
    assert_eq!(game.turn(), None);
    assert_eq!(game.register("a".to_string()), Ok(()));
    assert_eq!(game.place_ship("a", ShipType::Destroyer, cells(&[(0, 0), (0, 1)])), Ok(()));
    assert_eq!(
        game.place_ship("a", ShipType::Destroyer, cells(&[(5, 0), (5, 1)])),
        Err(GameError::DuplicateShipType)
    );
    assert_eq!(game.make_guess("a", Cell::new(0, 0)).unwrap_err(), GameError::NotInProgress);
    assert_eq!(game.remove_player("b"), Err(GameError::UnknownPlayer));
    assert_eq!(game.remove_player("a"), Ok(()));
    assert_eq!(game.player_count(), 0);
    assert_eq!(game.take_events().len(), 2);
}

#[test]
fn error_messages() {
    assert_eq!(GameError::InvalidShipType.message(), "Invalid ship type");
    assert_eq!(GameError::DuplicateShipType.message(), "All ships of this type are already placed");
    assert_eq!(GameError::EmptyStream.message(), "No ship placement in stream");
    let all = [
        GameError::InvalidShipType,
        GameError::DuplicateShipType,
        GameError::WrongLength,
        GameError::OutOfBounds,
        GameError::NotContiguous,
        GameError::Overlap,
        GameError::DuplicateGuess,
        GameError::NotYourTurn,
        GameError::NotInProgress,
        GameError::GameAlreadyFinished,
        GameError::UnknownPlayer,
        GameError::GameFull,
        GameError::IdentifierTaken,
        GameError::EmptyStream,
    ];
    for (i, a) in all.iter().enumerate() {
        assert!(!a.message().is_empty());
        for b in all.iter().skip(i + 1) {
            assert_ne!(a.message(), b.message());
        }
    }
}
