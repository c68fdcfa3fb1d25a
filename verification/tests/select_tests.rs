use chessboard::board::initial_pieces;
use chessboard::board::Piece;
use chessboard::board::PieceType;
use chessboard::board::Team;
use chessboard::select::find_selection;
use chessboard::select::handle_click;

#[test]
fn selecting_own_piece_finds_it() {
    let ps = initial_pieces();
    assert_eq!(find_selection(&ps, 1, 1, Team::Black), Some(0));
    assert_eq!(find_selection(&ps, 5, 8, Team::White), Some(28));
}

#[test]
fn opposing_piece_blocks_selection() {
    let ps = initial_pieces();
    // Square (1, 1) holds the black rook: white may not select it.
    assert_eq!(find_selection(&ps, 1, 1, Team::White), None);
    assert_eq!(find_selection(&ps, 5, 8, Team::Black), None);
}

#[test]
fn empty_square_selects_nothing() {
    let ps = initial_pieces();
    assert_eq!(find_selection(&ps, 1, 3, Team::White), None);
    assert_eq!(find_selection(&ps, 4, 5, Team::Black), None);
    assert_eq!(find_selection(&Vec::new(), 1, 1, Team::White), None);
}

#[test]
fn first_occupant_decides() {
    let black = Piece { team: Team::Black, ty: PieceType::Knight, file: 3, rank: 3 };
    let white = Piece { team: Team::White, ty: PieceType::Bishop, file: 3, rank: 3 };
    assert_eq!(find_selection(&vec![black, white], 3, 3, Team::White), None);
    assert_eq!(find_selection(&vec![white, black], 3, 3, Team::White), Some(0));
}

#[test]
fn click_selects_through_the_window() {
    let ps = initial_pieces();
    // In an 800 x 800 window, (120, 680) is the centre of square (1, 1),
    // which holds the black rook.
    let rook = Piece { team: Team::Black, ty: PieceType::Rook, file: 1, rank: 1 };
    assert_eq!(handle_click(&ps, 120, 680, 800, 800, Team::Black), Some(rook));
    assert_eq!(handle_click(&ps, 120, 680, 800, 800, Team::White), None);
}

#[test]
fn click_on_empty_square_selects_nothing() {
    let ps = initial_pieces();
    // (360, 440) is the centre of square (4, 4), which is empty.
    assert_eq!(handle_click(&ps, 360, 440, 800, 800, Team::White), None);
}

#[test]
fn click_off_the_board_selects_nothing() {
    let ps = initial_pieces();
    assert_eq!(handle_click(&ps, 5, 5, 800, 800, Team::White), None);
    assert_eq!(handle_click(&ps, 40, 760, 800, 800, Team::White), None);
}
