use chess::board::Board;
use chess::error::ChessError;
use chess::game::Game;
use chess::moves::{Coord, Move};
use chess::piece::defaults;
use chess::piece::PieceRef;
use chess::piece_rules::{Direction, Distance, MoveRules, MoveVec, NthMoveRules};
use chess::piece_set::PieceSet;
use chess::team::{StartInfo, Team};
use chess::tile::TileBuilder;
use chess::vec2::Vec2;

const DIRECTIONS: [Direction; 8] = [
    Direction::Left,
    Direction::Right,
    Direction::Up,
    Direction::Down,
    Direction::LeftUp,
    Direction::LeftDown,
    Direction::RightUp,
    Direction::RightDown,
];

/// A game on a `w` by `h` board with one set per (team, edge, pieces).
fn custom_game(w: u32, h: u32, sets: Vec<(&str, StartInfo, Vec<(PieceRef, Coord)>)>) -> Game {
    let mut board = Board::new(w, h);
    for (name, start, pieces) in sets {
        let mut set = PieceSet::new(Team::new(name.to_string(), start), Vec::new());
        for (p, c) in pieces {
            set.add_piece(p, c).unwrap();
        }
        board.add_piece_set(set).unwrap();
    }
    board.init().unwrap();
    Game { board, current_move: 0 }
}

fn destinations(moves: &[Move]) -> Vec<(u32, u32)> {
    let mut d: Vec<(u32, u32)> = moves.iter().map(|m| (m.to().x(), m.to().y())).collect();
    d.sort();
    d
}

fn move_to(moves: &[Move], x: u32, y: u32) -> Move {
    *moves.iter().find(|m| m.to().x() == x && m.to().y() == y).unwrap()
}

#[test]
fn tile_at_defined_exactly_in_bounds_and_distinct() {
    let board = Board::new(3, 2);
    let mut seen = Vec::new();
    for y in 0..4 {
        for x in 0..5 {
            let t = board.tile_at(x, y);
            assert_eq!(t.is_some(), x < 3 && y < 2);
            if let Some(t) = t {
                assert!(!seen.contains(&t));
                seen.push(t);
            }
        }
    }
    assert_eq!(seen.len(), 6);
    assert_eq!(board.tile_at(2, 1).unwrap().index, 5);
}

#[test]
fn standard_setup_occupies_32_tiles_with_live_pieces() {
    let game = Game::original().unwrap();
    let board = game.board();
    let mut occupied = 0;
    for y in 0..8 {
        for x in 0..8 {
            let t = board.tile_at(x, y).unwrap();
            if board.tile(t).occupied() {
                occupied += 1;
                assert!(y < 2 || y > 5);
            }
        }
    }
    assert_eq!(occupied, 32);
    for p in board.pieces() {
        assert!(board.piece(p).is_alive());
    }
    assert!(game.validate_game().is_ok());
}

#[test]
fn standard_white_moves_are_pushes_and_knight_jumps() {
    let game = Game::original().unwrap();
    let moves = game.calculate_moves_for("White".to_string()).unwrap();
    let mut expected: Vec<(u32, u32)> = Vec::new();
    for x in 0..8 {
        expected.push((x, 2));
        expected.push((x, 3));
    }
    expected.push((0, 2));
    expected.push((2, 2));
    expected.push((5, 2));
    expected.push((7, 2));
    expected.sort();
    assert_eq!(destinations(&moves), expected);

    let black = game.calculate_moves_for("Black".to_string()).unwrap();
    assert!(black.iter().all(|m| m.to().y() == 5 || m.to().y() == 4));
}

#[test]
fn unknown_team_fails_with_move_calculation_error() {
    let game = Game::original().unwrap();
    let r = game.calculate_moves_for("Green".to_string());
    assert!(matches!(r, Err(ChessError::MoveCalculationError { .. })));
}

#[test]
fn capture_then_reverse_restores_board() {
    let mut game = custom_game(
        8,
        8,
        vec![
            ("White", StartInfo::Bottom { offset: 0 }, vec![(defaults::rook(), Coord::new(0, 0))]),
            ("Black", StartInfo::Top { offset: 0 }, vec![(defaults::rook(), Coord::new(7, 4))]),
        ],
    );
    let before = game.board().state_string();
    assert_eq!(before, "                \n                \n                \n                \nR               \n                \n                \nR               \n");
    let moves = game.calculate_moves_for("White".to_string()).unwrap();
    assert_eq!(moves.len(), 10);
    let capture = move_to(&moves, 0, 3);
    let target = game.board().tile_at(0, 3).unwrap();
    let victim = game.board().tile(target).piece().unwrap();
    let mover = capture.piece();

    let log = game.execute_move(&capture).unwrap();
    assert_eq!(log.killed_piece, Some(victim));
    assert!(!game.board().piece(victim).is_alive());
    assert_eq!(game.board().tile(target).piece(), Some(mover));
    assert!(game.board().tile(capture.from_tile()).vacant());
    assert_eq!(game.board().piece(mover).rel_pos(), Some(Coord::new(0, 3)));
    assert_eq!(game.board().piece(mover).move_num(), 2);
    assert_eq!(game.current_move(), 1);
    assert_eq!(game.calculate_moves_for("Black".to_string()).unwrap().len(), 0);

    game.reverse_move(log).unwrap();
    assert!(game.board().piece(victim).is_alive());
    assert_eq!(game.board().tile(target).piece(), Some(victim));
    assert_eq!(game.board().tile(capture.from_tile()).piece(), Some(mover));
    assert_eq!(game.board().piece(mover).rel_pos(), Some(Coord::new(0, 0)));
    assert_eq!(game.board().piece(mover).move_num(), 1);
    assert_eq!(game.board().state_string(), before);
    assert_eq!(game.current_move(), 0);
}

#[test]
fn plain_move_round_trip_and_pawn_first_move_rule() {
    let mut game = Game::original().unwrap();
    let before = game.board().state_string();
    let moves = game.calculate_moves_for("White".to_string()).unwrap();
    let push = move_to(&moves, 4, 3);
    assert_eq!(push.rel_translation(), Vec2::new(0, 2));
    let log = game.execute_move(&push).unwrap();
    assert_eq!(log.killed_piece, None);
    // the pawn's two-step applies on its first move only
    let after = game.calculate_moves_for("White".to_string()).unwrap();
    let pawn_moves: Vec<&Move> = after.iter().filter(|m| m.piece() == push.piece()).collect();
    assert_eq!(pawn_moves.len(), 1);
    assert_eq!((pawn_moves[0].to().x(), pawn_moves[0].to().y()), (4, 4));

    game.reverse_move(log).unwrap();
    assert_eq!(game.board().state_string(), before);
    assert_eq!(game.calculate_moves_for("White".to_string()).unwrap().len(), 20);
}

#[test]
fn stale_move_fails_and_changes_nothing() {
    let mut game = Game::original().unwrap();
    let moves = game.calculate_moves_for("White".to_string()).unwrap();
    let push = move_to(&moves, 0, 2);
    let log = game.execute_move(&push).unwrap();
    let before = game.board().state_string();
    let again = game.execute_move(&push);
    assert!(matches!(again, Err(ChessError::TileActionError { .. })));
    assert_eq!(game.board().state_string(), before);
    assert_eq!(game.current_move(), 1);
    game.reverse_move(log).unwrap();
    let twice = game.reverse_move(log);
    assert!(matches!(twice, Err(ChessError::TileActionError { .. })));
}

#[test]
fn execute_fails_on_unrepresentable_position() {
    let mut game = Game::original().unwrap();
    let moves = game.calculate_moves_for("White".to_string()).unwrap();
    let mut bad = move_to(&moves, 0, 2);
    bad.rel_translation = Vec2::new(-1, 0);
    let before = game.board().state_string();
    let r = game.execute_move(&bad);
    assert!(matches!(r, Err(ChessError::CoordTranslationError { .. })));
    assert_eq!(game.board().state_string(), before);
}

#[test]
fn translate_below_zero_fails() {
    let c = Coord::new(0, 5);
    let r = c.translate(&Vec2::new(-1, 0));
    assert!(matches!(r, Err(ChessError::CoordTranslationError { .. })));
    assert!(matches!(Coord::new(3, 0).translate(&Vec2::new(0, -1)), Err(ChessError::CoordTranslationError { .. })));
    assert_eq!(c, Coord::new(0, 5));
    assert_eq!(Coord::new(2, 3).translate(&Vec2::new(-2, 1)).unwrap(), Coord::new(0, 4));
}

#[test]
fn direction_rotation_is_a_group_action() {
    let top = StartInfo::Top { offset: 0 };
    let left = StartInfo::Left { offset: 0 };
    let right = StartInfo::Right { offset: 3 };
    for d in DIRECTIONS {
        assert_eq!(d.rel_to_absolute(top).rel_to_absolute(top), d);
        assert_eq!(d.rel_to_absolute(left).rel_to_absolute(right), d);
        assert_eq!(d.rel_to_absolute(StartInfo::Bottom { offset: 2 }), d);
    }
    assert_eq!(Direction::Up.rel_to_absolute(left), Direction::Right);
    assert_eq!(Direction::Left.rel_to_absolute(left), Direction::Up);
    assert_eq!(Direction::Up.rel_to_absolute(right), Direction::Left);
    assert_eq!(Direction::LeftUp.rel_to_absolute(top), Direction::RightDown);
}

#[test]
fn direction_vectors() {
    assert_eq!(Direction::Left.as_vec(), Vec2::new(-1, 0));
    assert_eq!(Direction::RightDown.as_vec(), Vec2::new(1, -1));
    assert_eq!(Direction::LeftUp.as_vec(), Vec2::new(-1, 1));
    assert_eq!(Vec2::new(2, -3).add(&Vec2::new(-5, 1)), Vec2::new(-3, -2));
    assert_eq!(Vec2::new(2, -3).mul(4), Vec2::new(8, -12));
    assert_eq!(Coord::new(2, 3).add(&Coord::new(4, 1)), Coord::new(6, 4));
}

#[test]
fn relative_coordinates_turn_with_the_edge() {
    let board = Board::new(8, 6);
    let c = Coord::new(1, 2);
    assert_eq!(board.rel_coord_to_absolute(c, StartInfo::Bottom { offset: 0 }), Coord::new(1, 2));
    assert_eq!(board.rel_coord_to_absolute(c, StartInfo::Top { offset: 0 }), Coord::new(6, 3));
    assert_eq!(board.rel_coord_to_absolute(c, StartInfo::Left { offset: 0 }), Coord::new(2, 4));
    assert_eq!(board.rel_coord_to_absolute(c, StartInfo::Right { offset: 0 }), Coord::new(5, 1));
}

#[test]
fn offset_shifts_the_starting_tile() {
    let game = custom_game(
        6,
        6,
        vec![
            ("White", StartInfo::Bottom { offset: 2 }, vec![(defaults::pawn(), Coord::new(0, 1))]),
            ("Black", StartInfo::Top { offset: 1 }, vec![(defaults::pawn(), Coord::new(0, 1))]),
        ],
    );
    let b = game.board();
    assert!(b.tile(b.tile_at(2, 1).unwrap()).occupied());
    assert!(b.tile(b.tile_at(4, 4).unwrap()).occupied());
    let white = game.calculate_moves_for("White".to_string()).unwrap();
    assert_eq!(destinations(&white), vec![(2, 2), (2, 3)]);
    let black = game.calculate_moves_for("Black".to_string()).unwrap();
    assert_eq!(destinations(&black), vec![(4, 2), (4, 3)]);
}

#[test]
fn second_init_fails() {
    let mut game = Game::original().unwrap();
    let r = game.board.init();
    assert!(matches!(r, Err(ChessError::TileActionError { .. })));
}

#[test]
fn validation_names_a_piece_without_team() {
    let mut board = Board::new(4, 4);
    let set = PieceSet {
        team: Team::new("White".to_string(), StartInfo::Bottom { offset: 0 }),
        pieces: vec![defaults::pawn()],
        starting_coords: vec![Coord::new(0, 0)],
    };
    board.add_piece_set(set).unwrap();
    let game = Game { board, current_move: 0 };
    match game.validate_game() {
        Err(ChessError::GameValidationError { why }) => assert!(why.ends_with("Pawn")),
        _ => panic!("expected a validation error"),
    }
}

#[test]
fn tile_actions_fail_on_wrong_occupancy() {
    let game = Game::original().unwrap();
    let occupant = game.board().pieces()[0];
    let mut tile = TileBuilder::new().build();
    assert!(tile.vacant());
    assert!(matches!(tile.remove_piece(), Err(ChessError::TileActionError { .. })));
    tile.set_piece(occupant, None).unwrap();
    assert!(matches!(tile.set_piece(occupant, None), Err(ChessError::TileActionError { .. })));
    let mut other = TileBuilder::new().build();
    tile.move_contained_piece(&mut other).unwrap();
    assert!(tile.vacant());
    assert_eq!(other.piece(), Some(occupant));
    assert!(matches!(tile.move_contained_piece(&mut other), Err(ChessError::TileActionError { .. })));
}

#[test]
fn king_reaches_every_neighbour() {
    let game = custom_game(
        5,
        5,
        vec![("White", StartInfo::Bottom { offset: 0 }, vec![(defaults::king(), Coord::new(2, 2))])],
    );
    let moves = game.calculate_moves_for("White".to_string()).unwrap();
    assert_eq!(
        destinations(&moves),
        vec![(1, 1), (1, 2), (1, 3), (2, 1), (2, 3), (3, 1), (3, 2), (3, 3)]
    );
}

#[test]
fn knight_in_corner_has_two_jumps() {
    let game = custom_game(
        8,
        8,
        vec![("White", StartInfo::Bottom { offset: 0 }, vec![(defaults::knight(), Coord::new(0, 0))])],
    );
    let moves = game.calculate_moves_for("White".to_string()).unwrap();
    assert_eq!(destinations(&moves), vec![(1, 2), (2, 1)]);
}

#[test]
fn jump_line_jump_and_pierce_rules() {
    let jumper = PieceRef {
        move_rules: vec![MoveRules::jump(Coord::new(1, 2))],
        kill_rules: Vec::new(),
        nth_move_rules: Vec::new(),
        ..defaults::pawn()
    };
    let liner = PieceRef {
        move_rules: vec![MoveRules::line_jump(vec![MoveVec::new(Distance::infinite(), Direction::Up)])],
        kill_rules: Vec::new(),
        nth_move_rules: Vec::new(),
        use_moves_for_kills: true,
        ..defaults::pawn()
    };
    let piercer = PieceRef {
        move_rules: vec![MoveRules::pierce(vec![MoveVec::new(Distance::infinite(), Direction::Up)], 1)],
        kill_rules: Vec::new(),
        nth_move_rules: vec![NthMoveRules::new(Vec::new(), 1, false)],
        use_moves_for_kills: true,
        ..defaults::pawn()
    };
    let game = custom_game(
        4,
        6,
        vec![
            (
                "White",
                StartInfo::Bottom { offset: 0 },
                vec![
                    (jumper, Coord::new(0, 0)),
                    (liner, Coord::new(1, 0)),
                    (defaults::pawn(), Coord::new(1, 1)),
                    (piercer, Coord::new(3, 0)),
                ],
            ),
            (
                "Black",
                StartInfo::Top { offset: 0 },
                vec![(defaults::pawn(), Coord::new(0, 2)), (defaults::pawn(), Coord::new(0, 1))],
            ),
        ],
    );
    let moves = game.calculate_moves_for("White".to_string()).unwrap();
    let b = game.board();
    let of = |x: u32, y: u32| {
        let p = b.tile(b.tile_at(x, y).unwrap()).piece().unwrap();
        destinations(&moves.iter().filter(|m| m.piece() == p).cloned().collect::<Vec<Move>>())
    };
    assert_eq!(of(0, 0), vec![(1, 2)]);
    assert_eq!(of(1, 0), vec![(1, 2), (1, 3), (1, 4), (1, 5)]);
    // one point of budget: through the first enemy, stopping at the second
    assert_eq!(of(3, 0), vec![(3, 1), (3, 2), (3, 3), (3, 4)]);
}

#[test]
fn two_piece_game_places_piece_and_copy() {
    let game = Game::two_piece_test(defaults::knight()).unwrap();
    let b = game.board();
    let sets = b.piece_sets();
    assert_eq!(sets.len(), 2);
    assert_eq!(sets[0].team().name(), "White");
    assert_eq!(sets[1].team().name(), "Black");
    assert_eq!(sets[0].pieces()[0].name(), "Knight");
    assert_eq!(sets[1].pieces()[0].name(), "Knight");
    assert_eq!(sets[1].pieces()[0].team_unchecked().name(), "Black");
    let mut occupied = Vec::new();
    for y in 0..10 {
        for x in 0..10 {
            if b.tile(b.tile_at(x, y).unwrap()).occupied() {
                occupied.push((x, y));
            }
        }
    }
    assert_eq!(occupied, vec![(2, 3), (7, 6)]);
    assert_eq!(game.current_move(), 0);
}

#[test]
fn two_piece_game_with_dead_piece_leaves_board_empty() {
    let mut p = defaults::pawn();
    p.kill();
    let game = Game::two_piece_test(p).unwrap();
    assert_eq!(game.board().state_string(), "                    \n".repeat(10));
}
