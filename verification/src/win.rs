//! The win checker: a full board sweep for the terminal condition.

use vstd::prelude::*;

use crate::board::{lemma_seq_pieces_nonneg, piece_count, seq_pieces, BoardState, Color, Point};
use crate::moves::has_piece;

verus! {

/// No point on the board holds a piece of `c`.  The bar is deliberately
/// not consulted: bear-off's decrement-only accounting makes a color with
/// an empty board the winner outright.
pub open spec fn no_board_pieces(s: Seq<Point>, c: Color) -> bool {
    forall|i: int| 0 <= i < s.len() ==> !has_piece(#[trigger] s[i], c)
}

/// Has `color` won?  True exactly when a sweep of all 24 points finds no
/// piece of that color.
#[verifier::loop_isolation(false)]
pub fn check_win(b: &BoardState, color: Color) -> (r: bool)
    requires
        b.wf(),
    ensures
        r == no_board_pieces(b.spec_points(), color),
{
    let mut i: usize = 0;
    while i < 24
        invariant
            i <= 24,
            forall|j: int| 0 <= j < i as int ==> !has_piece(#[trigger] b.spec_points()[j], color),
        decreases 24 - i,
    {
        let p = b.point(i);
        if p.owner == color && p.count > 0 {
            proof {
                assert(has_piece(b.spec_points()[i as int], color));
            }
            return false;
        }
        i += 1;
    }
    true
}

/// The sweep and the count agree: a color has no piece on any point
/// exactly when its board total is zero.
pub proof fn lemma_win_iff_no_board_pieces(s: Seq<Point>, c: Color)
    ensures
        no_board_pieces(s, c) <==> seq_pieces(s, c) == 0,
    decreases s.len(),
{
    if s.len() > 0 {
        lemma_win_iff_no_board_pieces(s.drop_first(), c);
        lemma_seq_pieces_nonneg(s.drop_first(), c);
        assert(forall|i: int|
            0 <= i < s.drop_first().len() ==> s.drop_first()[i] == s[i + 1]);
        assert(piece_count(s[0], c) == 0 <==> !has_piece(s[0], c));
        if no_board_pieces(s.drop_first(), c) && !has_piece(s[0], c) {
            assert forall|i: int| 0 <= i < s.len() implies !has_piece(#[trigger] s[i], c) by {
                if i > 0 {
                    assert(s.drop_first()[i - 1] == s[i]);
                    assert(!has_piece(s.drop_first()[i - 1], c));
                }
            }
        }
        if no_board_pieces(s, c) {
            assert(forall|i: int|
                0 <= i < s.drop_first().len() ==> !has_piece(#[trigger] s.drop_first()[i], c));
        }
    }
}

} // verus!
