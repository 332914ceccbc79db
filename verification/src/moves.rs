//! The move validator: checking and applying a single move.
//!
//! Three operations cover every way a piece changes place: an ordinary
//! move between points, re-entry from the bar, and bearing off.  Each one
//! either applies in full or rejects with a reason and leaves the board
//! untouched.

use vstd::prelude::*;

use crate::board::{BoardState, Color, Point};
use crate::board::{
    lemma_point_le_seq_pieces, lemma_seq_pieces_nonneg, lemma_seq_pieces_update,
};
use crate::dice::DiceState;

verus! {

/// Why a move was rejected.  A rejection never mutates anything.
#[derive(Copy, Clone, Debug, PartialEq, Eq, Structural)]
pub enum MoveError {
    /// Destination index outside the board.
    OutOfBounds,
    /// Destination not forward of the source for the mover's color.
    WrongDirection,
    /// No piece of the mover's color at the source.
    EmptySource,
    /// Destination held by two or more opposing pieces.
    Blocked,
    /// Ordinary move or bear-off attempted while pieces remain on the bar.
    BarNotEmpty,
    /// Bear-off attempted while a piece sits outside the home quadrant.
    NotHomeEligible,
    /// No pending die face matches the required consumption.
    PipMismatch,
}

/// Strictly forward for the mover: Black climbs the indices, White
/// descends them.
pub open spec fn forward_move(c: Color, start: int, end: int) -> bool {
    match c {
        Color::Black => end > start,
        Color::White => end < start,
    }
}

/// The point holds at least one piece of `c`.
pub open spec fn has_piece(p: Point, c: Color) -> bool {
    p.owner == c && p.count > 0
}

/// The point is held by two or more opposing pieces, so `c` may not land.
pub open spec fn blocked_for(p: Point, c: Color) -> bool {
    p.owner != c && p.count >= 2
}

/// The point holds exactly one opposing piece, which landing captures.
pub open spec fn lone_opponent(p: Point, c: Color) -> bool {
    p.owner != c && p.count == 1
}

/// The points a color re-enters into from the bar.
pub open spec fn entry_point_for(c: Color, end: int) -> bool {
    match c {
        Color::Black => 0 <= end <= 5,
        Color::White => 17 <= end <= 23,
    }
}

/// The points of a color's home quadrant, nearest its bear-off edge.
pub open spec fn home_point_for(c: Color, i: int) -> bool {
    match c {
        Color::Black => 18 <= i <= 23,
        Color::White => 0 <= i <= 5,
    }
}

/// Every piece of `c` on the board sits in `c`'s home quadrant.
pub open spec fn all_in_home(s: Seq<Point>, c: Color) -> bool {
    forall|i: int| 0 <= i < 24 && has_piece(#[trigger] s[i], c) ==> home_point_for(c, i)
}

/// Pip steps from point `i` to just past `c`'s bear-off edge.
pub open spec fn edge_distance(c: Color, i: int) -> int {
    match c {
        Color::Black => 24 - i,
        Color::White => i + 1,
    }
}

/// Why an ordinary move of `c` from `start` to `end` is rejected, or
/// `None` when it is legal.  The checks apply in this order.
pub open spec fn ordinary_check(b: BoardState, c: Color, start: int, end: int) -> Option<
    MoveError,
> {
    if b.spec_bar(c) > 0 {
        Some(MoveError::BarNotEmpty)
    } else if !forward_move(c, start, end) {
        Some(MoveError::WrongDirection)
    } else if !(0 <= end < 24) {
        Some(MoveError::OutOfBounds)
    } else if !has_piece(b.spec_points()[start], c) {
        Some(MoveError::EmptySource)
    } else if blocked_for(b.spec_points()[end], c) {
        Some(MoveError::Blocked)
    } else {
        None
    }
}

/// The points after a piece of `c` lands on `end`: a lone opposing piece
/// is replaced (it goes to the bar, accounted separately), an empty or
/// friendly point gains one piece.
pub open spec fn landed_points(s: Seq<Point>, c: Color, end: int) -> Seq<Point> {
    let dst = s[end];
    if dst.owner == c {
        s.update(end, Point { owner: dst.owner, count: (dst.count + 1) as u32 })
    } else {
        s.update(end, Point { owner: c, count: 1u32 })
    }
}

/// The points after a legal ordinary move: the source gives up one piece
/// and the destination is resolved by the landing rule.
pub open spec fn ordinary_points(s: Seq<Point>, c: Color, start: int, end: int) -> Seq<Point> {
    let src = s[start];
    landed_points(s.update(start, Point { owner: src.owner, count: (src.count - 1) as u32 }), c, end)
}

/// How the bars change when `c` lands on `end`: a capture credits the
/// opponent's bar with the piece taken, anything else leaves both alone.
pub open spec fn landing_bar_gain(s: Seq<Point>, c: Color, end: int) -> int {
    if lone_opponent(s[end], c) {
        1
    } else {
        0
    }
}

/// The whole effect of a legal ordinary move of `c` from `start` to `end`.
pub open spec fn ordinary_moved(pre: BoardState, post: BoardState, c: Color, start: int, end: int) -> bool {
    &&& post.spec_points() == ordinary_points(pre.spec_points(), c, start, end)
    &&& post.spec_bar(c) == pre.spec_bar(c)
    &&& post.spec_bar(c.spec_opposite()) == pre.spec_bar(c.spec_opposite()) + landing_bar_gain(
        pre.spec_points(),
        c,
        end,
    )
}

/// Check and apply an ordinary move of one piece of `color` from `start`
/// to `end`.  On rejection the board is untouched and the reason is the
/// first failing check; on success the move is applied in full, and each
/// color's count of pieces in play is conserved.
pub fn move_ordinary(b: &mut BoardState, color: Color, start: usize, end: usize) -> (r: Result<
    (),
    MoveError,
>)
    requires
        old(b).wf(),
        start < 24,
    ensures
        final(b).wf(),
        match r {
            Ok(()) => ordinary_check(*old(b), color, start as int, end as int) is None
                && ordinary_moved(*old(b), *final(b), color, start as int, end as int),
            Err(e) => ordinary_check(*old(b), color, start as int, end as int) == Some(e)
                && *final(b) == *old(b),
        },
        // Conservation: an ordinary move never creates or destroys a piece.
        r is Ok ==> forall|c: Color|
            final(b).total_pieces(c) == old(b).total_pieces(c),
        // A capture sends exactly one piece to the opponent's bar and
        // leaves the mover alone on the point.
        r is Ok && lone_opponent(old(b).spec_points()[end as int], color) ==> {
            &&& final(b).spec_bar(color.spec_opposite()) == old(b).spec_bar(
                color.spec_opposite(),
            ) + 1
            &&& final(b).spec_points()[end as int] == (Point { owner: color, count: 1u32 })
        },
{
    if b.bar(color) > 0 {
        return Err(MoveError::BarNotEmpty);
    }
    let fwd = match color {
        Color::Black => end > start,
        Color::White => end < start,
    };
    if !fwd {
        return Err(MoveError::WrongDirection);
    }
    if end >= 24 {
        return Err(MoveError::OutOfBounds);
    }
    let src = b.point(start);
    if !(src.owner == color && src.count > 0) {
        return Err(MoveError::EmptySource);
    }
    let dst = b.point(end);
    if dst.owner != color && dst.count >= 2 {
        return Err(MoveError::Blocked);
    }
    proof {
        // Bounds for the increments below: no point or bar exceeds the
        // color's 15-piece total.
        lemma_seq_pieces_nonneg(b.spec_points(), Color::White);
        lemma_seq_pieces_nonneg(b.spec_points(), Color::Black);
        if dst.owner == color {
            lemma_point_le_seq_pieces(b.spec_points(), color, end as int);
        }
    }
    let ghost s0 = b.spec_points();
    b.points.set(start, Point { owner: src.owner, count: src.count - 1 });
    proof {
        lemma_seq_pieces_update(
            s0,
            Color::White,
            start as int,
            Point { owner: src.owner, count: (src.count - 1) as u32 },
        );
        lemma_seq_pieces_update(
            s0,
            Color::Black,
            start as int,
            Point { owner: src.owner, count: (src.count - 1) as u32 },
        );
    }
    let ghost s1 = b.spec_points();
    if dst.owner == color {
        b.points.set(end, Point { owner: dst.owner, count: dst.count + 1 });
        proof {
            lemma_seq_pieces_update(
                s1,
                Color::White,
                end as int,
                Point { owner: dst.owner, count: (dst.count + 1) as u32 },
            );
            lemma_seq_pieces_update(
                s1,
                Color::Black,
                end as int,
                Point { owner: dst.owner, count: (dst.count + 1) as u32 },
            );
        }
    } else {
        if dst.count == 1 {
            // Capture: the lone opposing piece goes to its own bar.
            match color {
                Color::White => {
                    b.bar_black = b.bar_black + 1;
                },
                Color::Black => {
                    b.bar_white = b.bar_white + 1;
                },
            }
        }
        b.points.set(end, Point { owner: color, count: 1 });
        proof {
            lemma_seq_pieces_update(s1, Color::White, end as int, Point { owner: color, count: 1u32 });
            lemma_seq_pieces_update(s1, Color::Black, end as int, Point { owner: color, count: 1u32 });
        }
    }
    proof {
        assert(b.spec_points() =~= ordinary_points(s0, color, start as int, end as int));
    }
    Ok(())
}

/// Why a re-entry of `c` from the bar onto `end` is rejected, or `None`
/// when it is legal.  The checks apply in this order.
pub open spec fn off_bar_check(b: BoardState, c: Color, end: int) -> Option<MoveError> {
    if b.spec_bar(c) == 0 {
        Some(MoveError::EmptySource)
    } else if !entry_point_for(c, end) {
        if !(0 <= end < 24) {
            Some(MoveError::OutOfBounds)
        } else {
            Some(MoveError::WrongDirection)
        }
    } else if blocked_for(b.spec_points()[end], c) {
        Some(MoveError::Blocked)
    } else {
        None
    }
}

/// The whole effect of a legal re-entry of `c` from the bar onto `end`.
pub open spec fn entered_from_bar(pre: BoardState, post: BoardState, c: Color, end: int) -> bool {
    &&& post.spec_points() == landed_points(pre.spec_points(), c, end)
    &&& post.spec_bar(c) == pre.spec_bar(c) - 1
    &&& post.spec_bar(c.spec_opposite()) == pre.spec_bar(c.spec_opposite()) + landing_bar_gain(
        pre.spec_points(),
        c,
        end,
    )
}

/// Check and apply a re-entry of one piece of `color` from the bar onto
/// `end`, which must lie in `color`'s entry quadrant.  On rejection the
/// board is untouched; on success the bar gives up the piece, the landing
/// rule resolves the destination, and each color's count of pieces in
/// play is conserved.
pub fn move_off_bar(b: &mut BoardState, color: Color, end: usize) -> (r: Result<(), MoveError>)
    requires
        old(b).wf(),
    ensures
        final(b).wf(),
        match r {
            Ok(()) => off_bar_check(*old(b), color, end as int) is None && entered_from_bar(
                *old(b),
                *final(b),
                color,
                end as int,
            ),
            Err(e) => off_bar_check(*old(b), color, end as int) == Some(e) && *final(b) == *old(
                b,
            ),
        },
        r is Ok ==> forall|c: Color|
            final(b).total_pieces(c) == old(b).total_pieces(c),
{
    if b.bar(color) == 0 {
        return Err(MoveError::EmptySource);
    }
    let in_quadrant = match color {
        Color::Black => end <= 5,
        Color::White => 17 <= end && end <= 23,
    };
    if !in_quadrant {
        if end >= 24 {
            return Err(MoveError::OutOfBounds);
        }
        return Err(MoveError::WrongDirection);
    }
    let dst = b.point(end);
    if dst.owner != color && dst.count >= 2 {
        return Err(MoveError::Blocked);
    }
    proof {
        lemma_seq_pieces_nonneg(b.spec_points(), Color::White);
        lemma_seq_pieces_nonneg(b.spec_points(), Color::Black);
        if dst.owner == color {
            lemma_point_le_seq_pieces(b.spec_points(), color, end as int);
        }
    }
    let ghost s0 = b.spec_points();
    match color {
        Color::White => {
            b.bar_white = b.bar_white - 1;
        },
        Color::Black => {
            b.bar_black = b.bar_black - 1;
        },
    }
    if dst.owner == color {
        b.points.set(end, Point { owner: dst.owner, count: dst.count + 1 });
        proof {
            lemma_seq_pieces_update(
                s0,
                Color::White,
                end as int,
                Point { owner: dst.owner, count: (dst.count + 1) as u32 },
            );
            lemma_seq_pieces_update(
                s0,
                Color::Black,
                end as int,
                Point { owner: dst.owner, count: (dst.count + 1) as u32 },
            );
        }
    } else {
        if dst.count == 1 {
            match color {
                Color::White => {
                    b.bar_black = b.bar_black + 1;
                },
                Color::Black => {
                    b.bar_white = b.bar_white + 1;
                },
            }
        }
        b.points.set(end, Point { owner: color, count: 1 });
        proof {
            lemma_seq_pieces_update(s0, Color::White, end as int, Point { owner: color, count: 1u32 });
            lemma_seq_pieces_update(s0, Color::Black, end as int, Point { owner: color, count: 1u32 });
        }
    }
    proof {
        assert(b.spec_points() =~= landed_points(s0, color, end as int));
    }
    Ok(())
}

/// An applied ordinary move touches exactly the source and the
/// destination, and no count slips below zero: the source held a piece,
/// so its decrement is a true decrement, the destination ends at its old
/// count plus one or at exactly one, and every other point is untouched.
/// A point records one owner, so no point ever holds both colors.
pub proof fn lemma_ordinary_points_shape(s: Seq<Point>, c: Color, start: int, end: int)
    requires
        s.len() == 24,
        0 <= start < 24,
        0 <= end < 24,
        start != end,
        has_piece(s[start], c),
    ensures
        ordinary_points(s, c, start, end).len() == 24,
        ordinary_points(s, c, start, end)[start].count as int == s[start].count as int - 1,
        ordinary_points(s, c, start, end)[start].owner == s[start].owner,
        ordinary_points(s, c, start, end)[end] == (if s[end].owner == c {
            Point { owner: s[end].owner, count: (s[end].count + 1) as u32 }
        } else {
            Point { owner: c, count: 1u32 }
        }),
        forall|i: int|
            0 <= i < 24 && i != start && i != end ==> ordinary_points(s, c, start, end)[i]
                == s[i],
{
}

/// The farthest-from-the-edge distance among Black's occupied home points,
/// scanning up from `n`; 6 when none is occupied.
pub open spec fn farthest_black(s: Seq<Point>, n: int) -> int
    decreases 24 - n,
{
    if !(18 <= n < 24) {
        6
    } else if has_piece(s[n], Color::Black) {
        24 - n
    } else {
        farthest_black(s, n + 1)
    }
}

/// The farthest-from-the-edge distance among White's occupied home points,
/// scanning down from `n`; 6 when none is occupied.
pub open spec fn farthest_white(s: Seq<Point>, n: int) -> int
    decreases n + 1,
{
    if !(0 <= n <= 5) {
        6
    } else if has_piece(s[n], Color::White) {
        n + 1
    } else {
        farthest_white(s, n - 1)
    }
}

/// The edge distance of `c`'s most-distant occupied home point; 6 when the
/// home quadrant holds no piece of `c`.
pub open spec fn farthest_distance(s: Seq<Point>, c: Color) -> int {
    match c {
        Color::Black => farthest_black(s, 18),
        Color::White => farthest_white(s, 5),
    }
}

proof fn lemma_farthest_black_props(s: Seq<Point>, n: int)
    requires
        s.len() == 24,
        18 <= n <= 24,
    ensures
        forall|i: int|
            n <= i < 24 && has_piece(#[trigger] s[i], Color::Black) ==> 24 - i <= farthest_black(
                s,
                n,
            ),
        (exists|i: int| n <= i < 24 && has_piece(#[trigger] s[i], Color::Black)) ==> exists|
            i: int,
        |
            n <= i < 24 && has_piece(#[trigger] s[i], Color::Black) && 24 - i == farthest_black(
                s,
                n,
            ),
    decreases 24 - n,
{
    if n < 24 {
        lemma_farthest_black_props(s, n + 1);
        if !has_piece(s[n], Color::Black) {
            if exists|i: int| n <= i < 24 && has_piece(#[trigger] s[i], Color::Black) {
                let w = choose|i: int| n <= i < 24 && has_piece(#[trigger] s[i], Color::Black);
                assert(n + 1 <= w < 24 && has_piece(s[w], Color::Black));
            }
        }
    }
}

proof fn lemma_farthest_white_props(s: Seq<Point>, n: int)
    requires
        s.len() == 24,
        -1 <= n <= 5,
    ensures
        forall|i: int|
            0 <= i <= n && has_piece(#[trigger] s[i], Color::White) ==> i + 1 <= farthest_white(
                s,
                n,
            ),
        (exists|i: int| 0 <= i <= n && has_piece(#[trigger] s[i], Color::White)) ==> exists|
            i: int,
        |
            0 <= i <= n && has_piece(#[trigger] s[i], Color::White) && i + 1 == farthest_white(
                s,
                n,
            ),
    decreases n + 1,
{
    if n >= 0 {
        lemma_farthest_white_props(s, n - 1);
        if !has_piece(s[n], Color::White) {
            if exists|i: int| 0 <= i <= n && has_piece(#[trigger] s[i], Color::White) {
                let w = choose|i: int| 0 <= i <= n && has_piece(#[trigger] s[i], Color::White);
                assert(0 <= w <= n - 1 && has_piece(s[w], Color::White));
            }
        }
    }
}

/// The scanned farthest distance is a true maximum: no occupied home
/// point of `c` lies beyond it, and when the home quadrant holds any
/// piece of `c`, some occupied home point attains it exactly.
pub proof fn lemma_farthest_is_max(s: Seq<Point>, c: Color)
    requires
        s.len() == 24,
    ensures
        forall|i: int|
            0 <= i < 24 && has_piece(#[trigger] s[i], c) && home_point_for(c, i)
                ==> edge_distance(c, i) <= farthest_distance(s, c),
        (exists|i: int| 0 <= i < 24 && has_piece(#[trigger] s[i], c) && home_point_for(c, i))
            ==> exists|i: int|
            0 <= i < 24 && has_piece(#[trigger] s[i], c) && home_point_for(c, i)
                && edge_distance(c, i) == farthest_distance(s, c),
{
    match c {
        Color::Black => {
            lemma_farthest_black_props(s, 18);
            if exists|i: int|
                0 <= i < 24 && has_piece(#[trigger] s[i], c) && home_point_for(c, i) {
                let w = choose|i: int|
                    0 <= i < 24 && has_piece(#[trigger] s[i], c) && home_point_for(c, i);
                assert(18 <= w < 24 && has_piece(s[w], Color::Black));
            }
        },
        Color::White => {
            lemma_farthest_white_props(s, 5);
            if exists|i: int|
                0 <= i < 24 && has_piece(#[trigger] s[i], c) && home_point_for(c, i) {
                let w = choose|i: int|
                    0 <= i < 24 && has_piece(#[trigger] s[i], c) && home_point_for(c, i);
                assert(0 <= w <= 5 && has_piece(s[w], Color::White));
            }
        },
    }
}

/// A pending slot shows a face of at least `m`.
pub open spec fn slot_at_least(s: Option<u8>, m: int) -> bool {
    s matches Some(v) && v as int >= m
}

/// The die face a bear-off of `c` at `point` consumes, or why it is
/// rejected.  Bearing off asks for an empty bar, every piece home, a piece
/// of `c` on the chosen point, the point to be exactly the farthest-back
/// occupied one, and a pending die of at least that distance; the die's
/// own face, not the distance, is what gets consumed, the first slot
/// taking precedence.
pub open spec fn bear_off_check(b: BoardState, d: DiceState, c: Color, point: int) -> Result<
    u8,
    MoveError,
> {
    if b.spec_bar(c) > 0 {
        Err(MoveError::BarNotEmpty)
    } else if !all_in_home(b.spec_points(), c) {
        Err(MoveError::NotHomeEligible)
    } else if !has_piece(b.spec_points()[point], c) {
        Err(MoveError::EmptySource)
    } else {
        let dist = edge_distance(c, point);
        let m = farthest_distance(b.spec_points(), c);
        if m == dist && slot_at_least(d.first, m) {
            Ok(d.first.unwrap())
        } else if m == dist && slot_at_least(d.second, m) {
            Ok(d.second.unwrap())
        } else {
            Err(MoveError::PipMismatch)
        }
    }
}

/// Bearing off is refused outright while any piece of the color sits
/// outside its home quadrant, whatever the chosen point and whatever the
/// dice show; with the bar clear the reason reported is exactly that.
pub proof fn lemma_bear_off_needs_all_home(b: BoardState, d: DiceState, c: Color, point: int)
    requires
        !all_in_home(b.spec_points(), c),
    ensures
        bear_off_check(b, d, c, point) is Err,
        b.spec_bar(c) == 0 ==> bear_off_check(b, d, c, point) == Err::<u8, MoveError>(
            MoveError::NotHomeEligible,
        ),
{
}

/// Check a bear-off of `color` at `point` against the board and the
/// pending dice, returning the die face to consume.  Pure: applying the
/// bear-off is the turn controller's job.
#[verifier::loop_isolation(false)]
pub fn bear_off_pip(b: &BoardState, d: &DiceState, color: Color, point: usize) -> (r: Result<
    u8,
    MoveError,
>)
    requires
        b.wf(),
        point < 24,
    ensures
        r == bear_off_check(*b, *d, color, point as int),
{
    if b.bar(color) > 0 {
        return Err(MoveError::BarNotEmpty);
    }
    let mut i: usize = 0;
    while i < 24
        invariant
            i <= 24,
            b.wf(),
            forall|j: int|
                0 <= j < i as int && has_piece(#[trigger] b.spec_points()[j], color)
                    ==> home_point_for(color, j),
        decreases 24 - i,
    {
        let p = b.point(i);
        let outside = match color {
            Color::Black => i < 18,
            Color::White => i > 5,
        };
        if outside && p.count > 0 && p.owner == color {
            proof {
                assert(has_piece(b.spec_points()[i as int], color));
                assert(!all_in_home(b.spec_points(), color));
            }
            return Err(MoveError::NotHomeEligible);
        }
        i += 1;
    }
    let sel = b.point(point);
    if !(sel.owner == color && sel.count > 0) {
        return Err(MoveError::EmptySource);
    }
    let dist: usize = match color {
        Color::Black => 24 - point,
        Color::White => point + 1,
    };
    let m: usize = match color {
        Color::Black => {
            let mut m: usize = 6;
            let mut n: usize = 24;
            while n > 18
                invariant
                    18 <= n <= 24,
                    b.wf(),
                    m as int == farthest_black(b.spec_points(), n as int),
                decreases n,
            {
                n = n - 1;
                let p = b.point(n);
                if p.count > 0 && p.owner == Color::Black {
                    m = 24 - n;
                }
            }
            m
        },
        Color::White => {
            let mut m: usize = 6;
            let mut n: usize = 0;
            while n < 6
                invariant
                    n <= 6,
                    b.wf(),
                    m as int == farthest_white(b.spec_points(), n as int - 1),
                decreases 6 - n,
            {
                let p = b.point(n);
                if p.count > 0 && p.owner == Color::White {
                    m = n + 1;
                }
                n = n + 1;
            }
            m
        },
    };
    if dist == m {
        match d.first {
            Some(v) => {
                if v as usize >= m {
                    return Ok(v);
                }
            },
            None => {},
        }
        match d.second {
            Some(v) => {
                if v as usize >= m {
                    return Ok(v);
                }
            },
            None => {},
        }
    }
    Err(MoveError::PipMismatch)
}

} // verus!
