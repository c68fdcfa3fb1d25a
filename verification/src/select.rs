//! Answering a mouse click: which piece, if any, is selected.
//!
//! A click first resolves to a board square. The pieces are then scanned
//! in order; the first one standing on that square decides the outcome.
//! A piece of the player's own team is selected; a piece of the opposing
//! team blocks the click, and an empty square selects nothing.

use vstd::prelude::*;

use crate::board::Piece;
use crate::board::Team;
use crate::board::occupies;
use crate::geometry::window_square_spec;
use crate::geometry::get_square;

verus! {

/// The index of the piece a click on square `(file, rank)` selects: the
/// first piece standing there, provided it belongs to `player`.
pub open spec fn selection_spec(pieces: Seq<Piece>, file: u8, rank: u8, player: Team) -> Option<
    int,
>
    decreases pieces.len(),
{
    if pieces.len() == 0 {
        None
    } else if occupies(pieces.first(), file, rank) {
        if pieces.first().team == player {
            Some(0)
        } else {
            None
        }
    } else {
        match selection_spec(pieces.drop_first(), file, rank, player) {
            Some(j) => Some(j + 1),
            None => None,
        }
    }
}

/// When no piece among the first `k` stands on the square, the selection
/// over the whole sequence is the selection over the rest, shifted by `k`.
proof fn lemma_selection_skip(pieces: Seq<Piece>, file: u8, rank: u8, player: Team, k: int)
    requires
        0 <= k <= pieces.len(),
        forall|j: int| 0 <= j < k ==> !occupies(#[trigger] pieces[j], file, rank),
    ensures
        selection_spec(pieces, file, rank, player) == match selection_spec(
            pieces.skip(k),
            file,
            rank,
            player,
        ) {
            Some(j) => Some(j + k),
            None => None::<int>,
        },
    decreases k,
{
    if k == 0 {
        assert(pieces.skip(0) =~= pieces);
    } else {
        assert(occupies(pieces[0], file, rank) == occupies(pieces.first(), file, rank));
        let rest = pieces.drop_first();
        assert(forall|j: int| 0 <= j < k - 1 ==> !occupies(#[trigger] rest[j], file, rank));
        lemma_selection_skip(rest, file, rank, player, k - 1);
        assert(rest.skip(k - 1) =~= pieces.skip(k));
    }
}

/// Scans the pieces for the one a click on square `(file, rank)`
/// selects: the first piece standing there, and only when it belongs
/// to `player`.
pub fn find_selection(pieces: &Vec<Piece>, file: u8, rank: u8, player: Team) -> (r: Option<usize>)
    ensures
        match r {
            Some(k) => selection_spec(pieces@, file, rank, player) == Some(k as int),
            None => selection_spec(pieces@, file, rank, player) is None,
        },
{
    let n = pieces.len();
    let mut i: usize = 0;
    while i < n
        invariant
            i <= n,
            n == pieces@.len(),
            forall|j: int| 0 <= j < i ==> !occupies(#[trigger] pieces@[j], file, rank),
        decreases n - i,
    {
        let p = pieces[i];
        if p.file == file && p.rank == rank {
            proof {
                lemma_selection_skip(pieces@, file, rank, player, i as int);
                assert(pieces@.skip(i as int).first() == pieces@[i as int]);
            }
            if p.team == player {
                return Some(i);
            } else {
                return None;
            }
        }
        i = i + 1;
    }
    proof {
        lemma_selection_skip(pieces@, file, rank, player, n as int);
        assert(pieces@.skip(n as int) =~= Seq::<Piece>::empty());
    }
    None
}

/// A selected index is in range, its piece stands on the square and
/// belongs to the player, and no earlier piece stands on the square.
pub proof fn lemma_selection_valid(pieces: Seq<Piece>, file: u8, rank: u8, player: Team)
    ensures
        match selection_spec(pieces, file, rank, player) {
            Some(k) => 0 <= k < pieces.len() && occupies(pieces[k], file, rank) && pieces[k].team
                == player && forall|j: int| 0 <= j < k ==> !occupies(#[trigger] pieces[j], file, rank),
            None => true,
        },
    decreases pieces.len(),
{
    if pieces.len() != 0 && !occupies(pieces.first(), file, rank) {
        lemma_selection_valid(pieces.drop_first(), file, rank, player);
        let rest = pieces.drop_first();
        match selection_spec(rest, file, rank, player) {
            Some(j) => {
                assert forall|m: int| 1 <= m < j + 1 implies !occupies(
                    #[trigger] pieces[m],
                    file,
                    rank,
                ) by {
                    assert(pieces[m] == rest[m - 1]);
                    assert(!occupies(rest[m - 1], file, rank));
                }
            },
            None => {},
        }
    }
}

/// What a whole click resolves to: nothing when it misses the board or
/// lands on a square that selects nothing, else the selected piece.
pub open spec fn click_selection_spec(
    pieces: Seq<Piece>,
    px: int,
    py: int,
    width: int,
    height: int,
    player: Team,
) -> Option<Piece> {
    match window_square_spec(px, py, width, height) {
        None => None,
        Some(sq) => match selection_spec(pieces, sq.0, sq.1, player) {
            Some(k) => Some(pieces[k]),
            None => None,
        },
    }
}

/// Handles one click in a window of the given size, with the board
/// centred in it: resolves the square and scans the pieces.
pub fn handle_click(
    pieces: &Vec<Piece>,
    px: i32,
    py: i32,
    width: i32,
    height: i32,
    player: Team,
) -> (r: Option<Piece>)
    ensures
        r == click_selection_spec(
            pieces@,
            px as int,
            py as int,
            width as int,
            height as int,
            player,
        ),
{
    match get_square(px, py, width, height) {
        None => None,
        Some((file, rank)) => match find_selection(pieces, file, rank, player) {
            Some(k) => {
                proof {
                    lemma_selection_valid(pieces@, file, rank, player);
                }
                Some(pieces[k])
            },
            None => None,
        },
    }
}

/// A square whose first occupant belongs to the opposing team yields no
/// selection: piece `k` stands on the square, no earlier piece does, and
/// its team is not the player's, so the click selects nothing.
pub proof fn lemma_opposing_piece_blocks(
    pieces: Seq<Piece>,
    file: u8,
    rank: u8,
    player: Team,
    k: int,
)
    requires
        0 <= k < pieces.len(),
        occupies(pieces[k], file, rank),
        pieces[k].team != player,
        forall|j: int| 0 <= j < k ==> !occupies(#[trigger] pieces[j], file, rank),
    ensures
        selection_spec(pieces, file, rank, player) is None,
{
    lemma_selection_skip(pieces, file, rank, player, k);
    assert(pieces.skip(k).first() == pieces[k]);
}

} // verus!
