use chessboard::board::decode_piece;
use chessboard::board::initial_pieces;
use chessboard::board::piece_code;
use chessboard::board::piece_image_path;
use chessboard::board::Piece;
use chessboard::board::PieceType;
use chessboard::board::Team;

#[test]
fn initial_pieces_count() {
    assert_eq!(initial_pieces().len(), 32);
}

#[test]
fn initial_pieces_back_ranks() {
    let ps = initial_pieces();
    assert_eq!(ps[0], Piece { team: Team::Black, ty: PieceType::Rook, file: 1, rank: 1 });
    assert_eq!(ps[1], Piece { team: Team::Black, ty: PieceType::Knight, file: 2, rank: 1 });
    assert_eq!(ps[2], Piece { team: Team::Black, ty: PieceType::Bishop, file: 3, rank: 1 });
    assert_eq!(ps[3], Piece { team: Team::Black, ty: PieceType::Queen, file: 4, rank: 1 });
    assert_eq!(ps[4], Piece { team: Team::Black, ty: PieceType::King, file: 5, rank: 1 });
    assert_eq!(ps[31], Piece { team: Team::White, ty: PieceType::Rook, file: 8, rank: 8 });
    assert_eq!(ps[27], Piece { team: Team::White, ty: PieceType::Queen, file: 4, rank: 8 });
    assert_eq!(ps[28], Piece { team: Team::White, ty: PieceType::King, file: 5, rank: 8 });
}

#[test]
fn initial_pieces_pawn_rows() {
    let ps = initial_pieces();
    for f in 1..=8u8 {
        assert_eq!(ps[(f + 7) as usize], Piece {
            team: Team::Black,
            ty: PieceType::Pawn,
            file: f,
            rank: 2,
        });
        assert_eq!(ps[(f + 15) as usize], Piece {
            team: Team::White,
            ty: PieceType::Pawn,
            file: f,
            rank: 7,
        });
    }
}

#[test]
fn zero_codes_leave_middle_ranks_empty() {
    for p in initial_pieces() {
        assert!(p.rank <= 2 || p.rank >= 7);
    }
}

#[test]
fn each_occupied_square_holds_exactly_one_piece() {
    let ps = initial_pieces();
    for rank in [1u8, 2, 7, 8] {
        for file in 1..=8u8 {
            let n = ps.iter().filter(|p| p.file == file && p.rank == rank).count();
            assert_eq!(n, 1, "square ({file}, {rank})");
        }
    }
    for rank in 3..=6u8 {
        for file in 1..=8u8 {
            assert!(!ps.iter().any(|p| p.file == file && p.rank == rank));
        }
    }
}

#[test]
fn piece_codes_of_the_table() {
    assert_eq!(piece_code(0), 1);
    assert_eq!(piece_code(3), 4);
    assert_eq!(piece_code(4), 5);
    assert_eq!(piece_code(7), 1);
    assert_eq!(piece_code(8), 6);
    assert_eq!(piece_code(15), 6);
    assert_eq!(piece_code(16), 0);
    assert_eq!(piece_code(33), 0);
    assert_eq!(piece_code(47), 0);
    assert_eq!(piece_code(48), 7);
    assert_eq!(piece_code(56), 8);
    assert_eq!(piece_code(59), 11);
    assert_eq!(piece_code(60), 12);
    assert_eq!(piece_code(63), 8);
}

#[test]
fn decode_rejects_empty_and_unknown_codes() {
    assert_eq!(decode_piece(0), None);
    assert_eq!(decode_piece(13), None);
    assert_eq!(decode_piece(255), None);
}

#[test]
fn decode_maps_codes_to_team_and_type() {
    assert_eq!(decode_piece(1), Some((Team::Black, PieceType::Rook)));
    assert_eq!(decode_piece(4), Some((Team::Black, PieceType::Queen)));
    assert_eq!(decode_piece(5), Some((Team::Black, PieceType::King)));
    assert_eq!(decode_piece(6), Some((Team::Black, PieceType::Pawn)));
    assert_eq!(decode_piece(7), Some((Team::White, PieceType::Pawn)));
    assert_eq!(decode_piece(9), Some((Team::White, PieceType::Knight)));
    assert_eq!(decode_piece(12), Some((Team::White, PieceType::King)));
}

#[test]
fn image_paths() {
    assert_eq!(piece_image_path(Team::Black, PieceType::Rook), "pieces/black_rook.png");
    assert_eq!(piece_image_path(Team::White, PieceType::Knight), "pieces/white_knight.png");
    assert_eq!(piece_image_path(Team::White, PieceType::Queen), "pieces/white_queen.png");
    assert_eq!(piece_image_path(Team::Black, PieceType::Pawn), "pieces/black_pawn.png");
    assert_eq!(piece_image_path(Team::Black, PieceType::Bishop), "pieces/black_bishop.png");
    assert_eq!(piece_image_path(Team::White, PieceType::King), "pieces/white_king.png");
}
