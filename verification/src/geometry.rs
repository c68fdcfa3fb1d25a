//! Geometry of the board on screen.
//!
//! Each square is 80 pixels on a side, so the board covers a 640 x 640
//! pixel extent. Screen x grows with the file. Screen y runs the other
//! way: the board's corner `(corner_x, corner_y)` is the outer corner of
//! square (1, 1), and a square's rank grows as its pixels' y shrinks.
//! A click at `(px, py)` lands on file `ceil((px - corner_x) / 80)` and
//! rank `ceil((corner_y - py) / 80)`, and misses the board unless both
//! fall in 1..=8.

use vstd::prelude::*;
use vstd::arithmetic::div_mod::lemma_fundamental_div_mod_converse;

verus! {

/// The square a click at `(px, py)` lands on, for a board whose corner
/// stands at `(corner_x, corner_y)`: the ceiling of each offset divided
/// by the square side, or nothing when either falls outside 1..=8.
pub open spec fn locate_spec(corner_x: int, corner_y: int, px: int, py: int) -> Option<(u8, u8)> {
    let dx = px - corner_x;
    let dy = corner_y - py;
    if 0 < dx <= 640 && 0 < dy <= 640 {
        Some((((dx - 1) / 80 + 1) as u8, ((dy - 1) / 80 + 1) as u8))
    } else {
        None
    }
}

/// The square a click lands on in a window of the given size, with the
/// board centred in it. The corner offsets `(width - 640) / 2` and
/// `(height + 640) / 2` may fall between pixels when a dimension is odd,
/// so the comparison runs on doubled coordinates.
pub open spec fn window_square_spec(px: int, py: int, width: int, height: int) -> Option<
    (u8, u8),
> {
    let dx2 = 2 * px - (width - 640);
    let dy2 = (height + 640) - 2 * py;
    if 0 < dx2 <= 1280 && 0 < dy2 <= 1280 {
        Some((((dx2 - 1) / 160 + 1) as u8, ((dy2 - 1) / 160 + 1) as u8))
    } else {
        None
    }
}

/// The screen x of the centre of the squares of file `file`.
pub open spec fn square_center_x(corner_x: int, file: int) -> int {
    corner_x + 80 * file - 40
}

/// The screen y of the centre of the squares of rank `rank`.
pub open spec fn square_center_y(corner_y: int, rank: int) -> int {
    corner_y - 80 * rank + 40
}

/// A square is dark when its file and rank have the same parity.
pub open spec fn is_dark_square(file: int, rank: int) -> bool {
    (file + rank) % 2 == 0
}

/// Locates the square a click lands on, given the board's corner.
pub fn locate_in_board(corner_x: i32, corner_y: i32, px: i32, py: i32) -> (r: Option<(u8, u8)>)
    ensures
        r == locate_spec(corner_x as int, corner_y as int, px as int, py as int),
{
    let dx: i64 = px as i64 - corner_x as i64;
    let dy: i64 = corner_y as i64 - py as i64;
    if 1 <= dx && dx <= 640 && 1 <= dy && dy <= 640 {
        let fx: u8 = (((dx - 1) as u64 / 80) + 1) as u8;
        let fy: u8 = (((dy - 1) as u64 / 80) + 1) as u8;
        Some((fx, fy))
    } else {
        None
    }
}

/// Locates the square a click lands on in a window of the given size,
/// with the board centred in it.
pub fn get_square(px: i32, py: i32, width: i32, height: i32) -> (r: Option<(u8, u8)>)
    ensures
        r == window_square_spec(px as int, py as int, width as int, height as int),
{
    let dx2: i64 = 2 * (px as i64) - (width as i64 - 640);
    let dy2: i64 = (height as i64 + 640) - 2 * (py as i64);
    if 1 <= dx2 && dx2 <= 1280 && 1 <= dy2 && dy2 <= 1280 {
        let fx: u8 = (((dx2 - 1) as u64 / 160) + 1) as u8;
        let fy: u8 = (((dy2 - 1) as u64 / 160) + 1) as u8;
        Some((fx, fy))
    } else {
        None
    }
}

/// The screen centre of board square `(file, rank)` when the board is
/// drawn rank-up: the world position `(80 * file - 360, 80 * rank - 360)`.
pub fn board_square_center(file: u8, rank: u8) -> (r: (i32, i32))
    requires
        1 <= file <= 8,
        1 <= rank <= 8,
    ensures
        r.0 == 80 * file - 360,
        r.1 == 80 * rank - 360,
{
    (80 * (file as i32) - 360, 80 * (rank as i32) - 360)
}

/// The screen centre of the sprite of a piece at `(file, rank)`: the
/// vertical axis is flipped, so rank `rank` is drawn at the height of
/// board row `9 - rank`.
pub fn piece_sprite_center(file: u8, rank: u8) -> (r: (i32, i32))
    requires
        1 <= file <= 8,
        1 <= rank <= 8,
    ensures
        r.0 == 80 * file - 360,
        r.1 == 80 * (9 - rank) - 360,
{
    (80 * (file as i32) - 360, 80 * (9 - rank as i32) - 360)
}

/// Whether board square `(file, rank)` is drawn in the dark colour.
pub fn square_is_dark(file: u8, rank: u8) -> (r: bool)
    requires
        1 <= file <= 8,
        1 <= rank <= 8,
    ensures
        r == is_dark_square(file as int, rank as int),
{
    (file % 2 == 1 && rank % 2 == 1) || (file % 2 == 0 && rank % 2 == 0)
}

/// A click at the centre of the screen rectangle of square
/// `(file, rank)` resolves to `(file, rank)`, whatever corner the board
/// stands at.
pub proof fn lemma_center_click(corner_x: int, corner_y: int, file: u8, rank: u8)
    requires
        1 <= file <= 8,
        1 <= rank <= 8,
    ensures
        locate_spec(
            corner_x,
            corner_y,
            square_center_x(corner_x, file as int),
            square_center_y(corner_y, rank as int),
        ) == Some((file, rank)),
{
    let dx = 80 * (file as int) - 40;
    let dy = 80 * (rank as int) - 40;
    lemma_fundamental_div_mod_converse(dx - 1, 80, file as int - 1, 39);
    lemma_fundamental_div_mod_converse(dy - 1, 80, rank as int - 1, 39);
}

/// A click outside the board's 640 x 640 pixel extent yields no match.
pub proof fn lemma_outside_no_match(corner_x: int, corner_y: int, px: int, py: int)
    requires
        px <= corner_x || px > corner_x + 640 || py >= corner_y || py < corner_y - 640,
    ensures
        locate_spec(corner_x, corner_y, px, py) is None,
{
}

/// In a window of even width and height, the centred-window locator
/// agrees with the corner locator at the centred corner.
pub proof fn lemma_window_matches_corner(px: int, py: int, width: int, height: int)
    requires
        width % 2 == 0,
        height % 2 == 0,
    ensures
        window_square_spec(px, py, width, height) == locate_spec(
            (width - 640) / 2,
            (height + 640) / 2,
            px,
            py,
        ),
{
    let cx = (width - 640) / 2;
    let cy = (height + 640) / 2;
    let dx = px - cx;
    let dy = cy - py;
    assert(2 * px - (width - 640) == 2 * dx);
    assert((height + 640) - 2 * py == 2 * dy);
    if 0 < dx <= 640 {
        let q = (dx - 1) / 80;
        let r = (dx - 1) % 80;
        vstd::arithmetic::div_mod::lemma_fundamental_div_mod(dx - 1, 80);
        lemma_fundamental_div_mod_converse(2 * dx - 1, 160, q, 2 * r + 1);
    }
    if 0 < dy <= 640 {
        let q = (dy - 1) / 80;
        let r = (dy - 1) % 80;
        vstd::arithmetic::div_mod::lemma_fundamental_div_mod(dy - 1, 80);
        lemma_fundamental_div_mod_converse(2 * dy - 1, 160, q, 2 * r + 1);
    }
}

/// The locator inverts the piece-placement transform: a piece at
/// `(file, rank)` is drawn at world position
/// `(80 * file - 360, 80 * (9 - rank) - 360)`, which the window places at
/// its centre plus that offset, and a click right there resolves to
/// `(file, rank)` again.
pub proof fn lemma_sprite_click_round_trip(file: u8, rank: u8, width: int, height: int)
    requires
        1 <= file <= 8,
        1 <= rank <= 8,
        width % 2 == 0,
        height % 2 == 0,
    ensures
        window_square_spec(
            width / 2 + 80 * file - 360,
            height / 2 + 80 * (9 - rank) - 360,
            width,
            height,
        ) == Some((file, rank)),
{
    let px = width / 2 + 80 * (file as int) - 360;
    let py = height / 2 + 80 * (9 - rank as int) - 360;
    lemma_window_matches_corner(px, py, width, height);
    let cx = (width - 640) / 2;
    let cy = (height + 640) / 2;
    vstd::arithmetic::div_mod::lemma_fundamental_div_mod(width, 2);
    vstd::arithmetic::div_mod::lemma_fundamental_div_mod(height, 2);
    lemma_fundamental_div_mod_converse(width - 640, 2, width / 2 - 320, 0);
    lemma_fundamental_div_mod_converse(height + 640, 2, height / 2 + 320, 0);
    assert(px == square_center_x(cx, file as int));
    assert(py == square_center_y(cy, rank as int));
    lemma_center_click(cx, cy, file, rank);
}

} // verus!
