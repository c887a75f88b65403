use chess::game::Game;

#[test]
pub fn calc_default() {
    let game = Game::original().unwrap();
    let white = game.calculate_moves_for("White".to_string()).unwrap().len();
    let black = game.calculate_moves_for("Black".to_string()).unwrap().len();

    // each side: eight pawns with a single and a double push, two knights
    // with two jumps each
    assert!(white == 20);
    assert!(black == 20);
    assert!(white + black == 40);
}
