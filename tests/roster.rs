use chess::board::Board;
use chess::error::ChessError;
use chess::moves::Coord;
use chess::piece::defaults;
use chess::piece::PieceBuilder;
use chess::piece_set::PieceSet;
use chess::team::{StartInfo, Team};

#[test]
fn init_rejects_start_off_the_board() {
    let mut board = Board::new(4, 4);
    let mut set = PieceSet::new(Team::new("White".to_string(), StartInfo::Left { offset: 1 }), Vec::new());
    set.add_piece(defaults::rook(), Coord::new(3, 0)).unwrap();
    board.add_piece_set(set).unwrap();
    let r = board.init();
    assert!(matches!(r, Err(ChessError::TileActionError { .. })));
}

#[test]
fn init_places_left_and_right_teams() {
    let mut board = Board::new(6, 4);
    let mut left = PieceSet::new(Team::new("L".to_string(), StartInfo::Left { offset: 1 }), Vec::new());
    left.add_piece(defaults::rook(), Coord::new(0, 0)).unwrap();
    let mut right = PieceSet::new(Team::new("R".to_string(), StartInfo::Right { offset: 0 }), Vec::new());
    right.add_piece(defaults::king(), Coord::new(0, 0)).unwrap();
    board.add_piece_set(left).unwrap();
    board.add_piece_set(right).unwrap();
    board.init().unwrap();
    // left edge: frame (1, 0) is board (0, 4 - 1 - 1); right edge: frame (0, 0) is board (5, 0)
    assert_eq!(board.state_string(), "            \nR           \n            \n          K \n");
    let rook = board.tile(board.tile_at(0, 2).unwrap()).piece().unwrap();
    assert_eq!(board.piece(rook).rel_pos(), Some(Coord::new(1, 0)));
}

#[test]
fn roster_operations() {
    let white = Team::new("White".to_string(), StartInfo::Bottom { offset: 0 });
    let mut set = PieceSet::new(white, Vec::new());
    set.add_piece(defaults::pawn(), Coord::new(1, 1)).unwrap();
    set.add_piece(defaults::queen(), Coord::new(3, 0)).unwrap();
    assert_eq!(set.pieces().len(), 2);
    assert_eq!(set.starting_coords().clone(), vec![Coord::new(1, 1), Coord::new(3, 0)]);
    assert_eq!(set.pieces()[0].team().unwrap().name(), "White");
    assert_eq!(set.pieces()[1].rel_pos(), Some(Coord::new(3, 0)));

    let black = set.clone_for_team(Team::new("Black".to_string(), StartInfo::Top { offset: 0 }));
    assert_eq!(black.team().name(), "Black");
    assert_eq!(black.pieces()[1].name(), "Queen");
    assert_eq!(black.pieces()[1].team_unchecked().name(), "Black");
    assert_eq!(set.pieces()[1].team_unchecked().name(), "White");
    assert_eq!(black.starting_coords().clone(), set.starting_coords().clone());

    set.pieces[0].kill();
    assert_eq!(set.alive_pieces(), vec![1]);
    set.pieces[0].revive();
    assert_eq!(set.alive_pieces(), vec![0, 1]);
}

#[test]
fn builder_and_defaults() {
    let p = PieceBuilder::new()
        .name("Guard".to_string())
        .points(3)
        .jump_immune(true)
        .pierce_immune(true)
        .use_kill_for_moves(true)
        .use_moves_for_kills(true)
        .team(Team::new("T".to_string(), StartInfo::Top { offset: 2 }))
        .build()
        .unwrap();
    assert_eq!(p.name(), "Guard");
    assert_eq!(p.points(), 3);
    assert!(p.is_alive() && p.is_jump_immune() && p.is_pierce_immune());
    assert!(p.can_use_kill_for_moves() && p.can_use_moves_for_kills());
    assert_eq!(p.team_unchecked().start_info(), StartInfo::Top { offset: 2 });
    assert_eq!(p.rel_pos(), None);
    assert_eq!(p.move_num(), 1);

    let copy = PieceBuilder::clone_piece(&defaults::pawn());
    assert_eq!(copy.name(), "Pawn");
    assert_eq!(copy.kill_rules().len(), 2);
    assert_eq!(copy.nth_move_rules()[0].nth_move(), 1);
    assert!(!copy.can_use_moves_for_kills());
    assert!(defaults::bishop().can_use_moves_for_kills());
    assert_eq!(defaults::knight().move_rules().len(), 1);
}

#[test]
fn team_move_counter() {
    let mut t = Team::new("White".to_string(), StartInfo::Bottom { offset: 0 });
    assert_eq!(t.current_move_number(), 0);
    t.increment_move();
    t.increment_move();
    t.decrement_move();
    assert_eq!(t.current_move_number(), 1);
    assert_eq!(StartInfo::Right { offset: 4 }.offset(), 4);
}

#[test]
fn error_text() {
    let e = ChessError::GameValidationError { why: "missing".to_string() };
    assert_eq!(e.headline(), "Error validating game.");
    assert_eq!(e.why(), "missing");
}
