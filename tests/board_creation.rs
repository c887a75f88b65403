use chess::board::Board;
use chess::game::Game;

#[test]
pub fn board_creation() {
    let board = Board::new(8, 8);
    assert!(board.tile_at(0, 1).unwrap() != board.tile_at(1, 1).unwrap());
}

#[test]
pub fn piece_count() {
    let game = Game::original().unwrap();
    assert!(game.board().pieces().len() == 32);
}
