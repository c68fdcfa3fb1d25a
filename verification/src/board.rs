//! The pieces and their fixed opening layout.
//!
//! The layout is a 64-entry table of piece codes, one per board square in
//! row order: entry `i` describes the square at file `i % 8 + 1`,
//! rank `i / 8 + 1`. Code 0 marks an empty square, codes 1 through 6 the
//! black rook, knight, bishop, queen, king and pawn, and codes 7 through 12
//! the white pawn, rook, knight, bishop, queen and king.

use vstd::prelude::*;
use vstd::string::StringExecFns;

verus! {

#[derive(Clone, Copy, Debug, PartialEq, Eq, Structural)]
pub enum Team {
    White,
    Black,
}

#[derive(Clone, Copy, Debug, PartialEq, Eq, Structural)]
pub enum PieceType {
    Rook,
    Knight,
    Bishop,
    King,
    Queen,
    Pawn,
}

/// One piece standing on the board, at file and rank in 1..=8.
#[derive(Clone, Copy, Debug, PartialEq, Eq, Structural)]
pub struct Piece {
    pub team: Team,
    pub ty: PieceType,
    pub file: u8,
    pub rank: u8,
}

/// The black piece code of the back rank at 0-based file `f`:
/// rook, knight, bishop, queen, king, bishop, knight, rook.
pub open spec fn back_rank_code(f: int) -> u8 {
    if f == 0 || f == 7 {
        1
    } else if f == 1 || f == 6 {
        2
    } else if f == 2 || f == 5 {
        3
    } else if f == 3 {
        4
    } else {
        5
    }
}

/// The piece code of table entry `i`: black pieces on ranks 1 and 2,
/// white pieces on ranks 7 and 8, empty squares in between.
pub open spec fn layout_code(i: int) -> u8 {
    if i < 8 {
        back_rank_code(i % 8)
    } else if i < 16 {
        6
    } else if i < 48 {
        0
    } else if i < 56 {
        7
    } else {
        (back_rank_code(i % 8) + 7) as u8
    }
}

/// The team a non-zero piece code belongs to.
pub open spec fn code_team(c: u8) -> Team {
    if c < 7 {
        Team::Black
    } else {
        Team::White
    }
}

/// The piece type of a non-zero piece code.
pub open spec fn code_type(c: u8) -> PieceType {
    if c == 1 || c == 8 {
        PieceType::Rook
    } else if c == 2 || c == 9 {
        PieceType::Knight
    } else if c == 3 || c == 10 {
        PieceType::Bishop
    } else if c == 4 || c == 11 {
        PieceType::Queen
    } else if c == 5 || c == 12 {
        PieceType::King
    } else {
        PieceType::Pawn
    }
}

/// What a piece code stands for: nothing for 0, a team and a type for
/// codes 1 through 12, and nothing for codes the table never holds.
pub open spec fn decode_spec(c: u8) -> Option<(Team, PieceType)> {
    if 1 <= c <= 12 {
        Some((code_team(c), code_type(c)))
    } else {
        None
    }
}

/// The file, 1..=8, of the square that table entry `i` describes.
pub open spec fn square_file(i: int) -> u8 {
    (i % 8 + 1) as u8
}

/// The rank, 1..=8, of the square that table entry `i` describes.
pub open spec fn square_rank(i: int) -> u8 {
    (i / 8 + 1) as u8
}

/// Whether piece `p` stands on square `(file, rank)`.
pub open spec fn occupies(p: Piece, file: u8, rank: u8) -> bool {
    p.file == file && p.rank == rank
}

/// The piece that table entry `i` would place: the team and type of its
/// code, standing on the square the entry describes.
pub open spec fn layout_piece(i: int) -> Piece {
    Piece {
        team: code_team(layout_code(i)),
        ty: code_type(layout_code(i)),
        file: square_file(i),
        rank: square_rank(i),
    }
}

/// The piece that table entry `i` places, if its code is non-zero.
pub open spec fn placed_piece(i: int) -> Option<Piece> {
    if layout_code(i) == 0 {
        None
    } else {
        Some(layout_piece(i))
    }
}

/// The pieces that the first `n` table entries place, in table order.
pub open spec fn placed_prefix(n: int) -> Seq<Piece>
    decreases n,
{
    if n <= 0 {
        Seq::empty()
    } else {
        placed_prefix(n - 1) + match placed_piece(n - 1) {
            Some(p) => seq![p],
            None => Seq::empty(),
        }
    }
}

/// The full opening placement: the pieces of all 64 table entries.
pub open spec fn initial_placement() -> Seq<Piece> {
    placed_prefix(64)
}

/// The piece code of table entry `i`.
pub fn piece_code(i: usize) -> (c: u8)
    requires
        i < 64,
    ensures
        c == layout_code(i as int),
{
    let f = i % 8;
    if i < 8 {
        back_rank_code_at(f)
    } else if i < 16 {
        6
    } else if i < 48 {
        0
    } else if i < 56 {
        7
    } else {
        back_rank_code_at(f) + 7
    }
}

/// The black back-rank piece code at 0-based file `f`.
pub fn back_rank_code_at(f: usize) -> (c: u8)
    requires
        f < 8,
    ensures
        c == back_rank_code(f as int),
{
    if f == 0 || f == 7 {
        1
    } else if f == 1 || f == 6 {
        2
    } else if f == 2 || f == 5 {
        3
    } else if f == 3 {
        4
    } else {
        5
    }
}

/// Decodes one piece code to its team and type.
pub fn decode_piece(c: u8) -> (r: Option<(Team, PieceType)>)
    ensures
        r == decode_spec(c),
{
    if c == 0 || c > 12 {
        return None;
    }
    let team = if c < 7 {
        Team::Black
    } else {
        Team::White
    };
    let ty = if c == 1 || c == 8 {
        PieceType::Rook
    } else if c == 2 || c == 9 {
        PieceType::Knight
    } else if c == 3 || c == 10 {
        PieceType::Bishop
    } else if c == 4 || c == 11 {
        PieceType::Queen
    } else if c == 5 || c == 12 {
        PieceType::King
    } else {
        PieceType::Pawn
    };
    Some((team, ty))
}

/// The lowercase name of a team.
pub open spec fn team_name(t: Team) -> Seq<char> {
    match t {
        Team::Black => "black"@,
        Team::White => "white"@,
    }
}

/// The lowercase name of a piece type.
pub open spec fn piece_kind_name(ty: PieceType) -> Seq<char> {
    match ty {
        PieceType::Rook => "rook"@,
        PieceType::Knight => "knight"@,
        PieceType::Bishop => "bishop"@,
        PieceType::King => "king"@,
        PieceType::Queen => "queen"@,
        PieceType::Pawn => "pawn"@,
    }
}

/// The asset path of a piece's sprite: `pieces/{team}_{type}.png`.
pub open spec fn image_path(t: Team, ty: PieceType) -> Seq<char> {
    "pieces/"@ + team_name(t) + "_"@ + piece_kind_name(ty) + ".png"@
}

/// The lowercase name of a team.
pub fn team_label(t: Team) -> (r: &'static str)
    ensures
        r@ == team_name(t),
{
    match t {
        Team::Black => "black",
        Team::White => "white",
    }
}

/// The lowercase name of a piece type.
pub fn type_label(ty: PieceType) -> (r: &'static str)
    ensures
        r@ == piece_kind_name(ty),
{
    match ty {
        PieceType::Rook => "rook",
        PieceType::Knight => "knight",
        PieceType::Bishop => "bishop",
        PieceType::King => "king",
        PieceType::Queen => "queen",
        PieceType::Pawn => "pawn",
    }
}

/// Builds the asset path of a piece's sprite.
pub fn piece_image_path(t: Team, ty: PieceType) -> (r: String)
    ensures
        r@ == image_path(t, ty),
{
    let mut s = String::from_str("pieces/");
    s.append(team_label(t));
    s.append("_");
    s.append(type_label(ty));
    s.append(".png");
    proof {
        assert(s@ =~= image_path(t, ty));
    }
    s
}

/// Expands the layout table into one piece per non-zero entry, in
/// table order.
pub fn initial_pieces() -> (r: Vec<Piece>)
    ensures
        r@ == initial_placement(),
{
    let mut pieces: Vec<Piece> = Vec::new();
    let mut i: usize = 0;
    while i < 64
        invariant
            i <= 64,
            pieces@ == placed_prefix(i as int),
        decreases 64 - i,
    {
        let c = piece_code(i);
        match decode_piece(c) {
            Some((team, ty)) => {
                let p = Piece {
                    team,
                    ty,
                    file: (i % 8 + 1) as u8,
                    rank: (i / 8 + 1) as u8,
                };
                pieces.push(p);
            },
            None => {},
        }
        i = i + 1;
    }
    pieces
}

/// How many pieces the first `n` table entries place: every entry below
/// 16 and from 48 on holds a piece, the rest are empty.
pub open spec fn prefix_count(n: int) -> int {
    if n <= 16 {
        n
    } else if n <= 48 {
        16
    } else {
        n - 32
    }
}

/// The table entry that the `j`-th placed piece comes from.
pub open spec fn piece_source(j: int) -> int {
    if j < 16 {
        j
    } else {
        j + 32
    }
}

/// A table entry's code is zero exactly on the four middle ranks.
proof fn lemma_code_zero_range(i: int)
    requires
        0 <= i < 64,
    ensures
        (layout_code(i) == 0) <==> (16 <= i < 48),
{
}

/// Table entries with distinct indices describe distinct squares.
proof fn lemma_square_injective(a: int, b: int)
    requires
        0 <= a < 64,
        0 <= b < 64,
        square_file(a) == square_file(b),
        square_rank(a) == square_rank(b),
    ensures
        a == b,
{
    vstd::arithmetic::div_mod::lemma_fundamental_div_mod(a, 8);
    vstd::arithmetic::div_mod::lemma_fundamental_div_mod(b, 8);
}

/// The shape of the placed prefix: its length, and the table entry each
/// of its pieces comes from.
proof fn lemma_prefix_structure(n: int)
    requires
        0 <= n <= 64,
    ensures
        placed_prefix(n).len() == prefix_count(n),
        forall|j: int|
            0 <= j < prefix_count(n) ==> #[trigger] placed_prefix(n)[j] == layout_piece(
                piece_source(j),
            ),
    decreases n,
{
    if n > 0 {
        lemma_prefix_structure(n - 1);
        let i = n - 1;
        lemma_code_zero_range(i);
        assert forall|j: int| 0 <= j < prefix_count(n) implies #[trigger] placed_prefix(n)[j]
            == layout_piece(piece_source(j)) by {
            if j < prefix_count(n - 1) {
                assert(placed_prefix(n)[j] == placed_prefix(n - 1)[j]);
            } else {
                assert(layout_code(i) != 0);
                assert(placed_prefix(n)[j] == layout_piece(i));
                assert(piece_source(j) == i);
            }
        }
    }
}

/// The opening placement holds exactly 32 pieces.
pub proof fn lemma_initial_placement_len()
    ensures
        initial_placement().len() == 32,
{
    lemma_prefix_structure(64);
}

/// Every table entry with a zero code leaves its square empty in the
/// opening placement, and every entry with a non-zero code yields exactly
/// one piece there, standing at the file and rank the entry encodes.
pub proof fn lemma_initial_placement(i: int)
    requires
        0 <= i < 64,
    ensures
        layout_code(i) == 0 ==> forall|j: int|
            0 <= j < initial_placement().len() ==> !occupies(
                #[trigger] initial_placement()[j],
                square_file(i),
                square_rank(i),
            ),
        layout_code(i) != 0 ==> exists|j: int|
            0 <= j < initial_placement().len() && #[trigger] initial_placement()[j]
                == layout_piece(i),
        layout_code(i) != 0 ==> forall|j1: int, j2: int|
            0 <= j1 < initial_placement().len() && 0 <= j2 < initial_placement().len() && occupies(
                #[trigger] initial_placement()[j1],
                square_file(i),
                square_rank(i),
            ) && occupies(
                #[trigger] initial_placement()[j2],
                square_file(i),
                square_rank(i),
            ) ==> j1 == j2,
{
    lemma_prefix_structure(64);
    lemma_code_zero_range(i);
    if layout_code(i) == 0 {
        assert forall|j: int| 0 <= j < initial_placement().len() implies !occupies(
            #[trigger] initial_placement()[j],
            square_file(i),
            square_rank(i),
        ) by {
            let s = piece_source(j);
            assert(initial_placement()[j] == layout_piece(s));
            lemma_code_zero_range(s);
            if occupies(layout_piece(s), square_file(i), square_rank(i)) {
                lemma_square_injective(s, i);
            }
        }
    } else {
        let w = if i < 16 {
            i
        } else {
            i - 32
        };
        assert(initial_placement()[w] == layout_piece(i));
        assert forall|j1: int, j2: int|
            0 <= j1 < initial_placement().len() && 0 <= j2 < initial_placement().len() && occupies(
                #[trigger] initial_placement()[j1],
                square_file(i),
                square_rank(i),
            ) && occupies(
                #[trigger] initial_placement()[j2],
                square_file(i),
                square_rank(i),
            ) implies j1 == j2 by {
            let s1 = piece_source(j1);
            let s2 = piece_source(j2);
            lemma_square_injective(s1, i);
            lemma_square_injective(s2, i);
        }
    }
}

} // verus!
