//! The board: 24 ordered points plus one bar slot per color.
//!
//! A point records an owner and a piece count; the owner is meaningful only
//! while the count is positive.  The board itself is a dumb store with
//! accessors and runtime-checked mutation primitives; move legality lives in
//! the move validator.

use vstd::prelude::*;

verus! {

/// A checker color.  Black advances toward higher point indices and bears
/// off past point 23; White advances toward lower indices and bears off
/// past point 0.
#[derive(Copy, Clone, Debug, PartialEq, Eq, Structural)]
pub enum Color {
    White,
    Black,
}

impl Color {
    /// The other color.
    pub open spec fn spec_opposite(self) -> Color {
        match self {
            Color::White => Color::Black,
            Color::Black => Color::White,
        }
    }

    pub fn opposite(self) -> (r: Color)
        ensures
            r == self.spec_opposite(),
    {
        match self {
            Color::White => Color::Black,
            Color::Black => Color::White,
        }
    }
}

/// One of the 24 board positions: an owner and a piece count.  The owner is
/// meaningful only when `count > 0`; an empty point keeps whatever owner tag
/// it last had, and no rule ever reads it.
#[derive(Copy, Clone, Debug, PartialEq, Eq, Structural)]
pub struct Point {
    pub owner: Color,
    pub count: u32,
}

/// Pieces a point contributes to `c`'s board total.
pub open spec fn piece_count(p: Point, c: Color) -> int {
    if p.owner == c {
        p.count as int
    } else {
        0
    }
}

/// Pieces of color `c` summed over a sequence of points.
pub open spec fn seq_pieces(s: Seq<Point>, c: Color) -> int
    decreases s.len(),
{
    if s.len() == 0 {
        0
    } else {
        piece_count(s[0], c) + seq_pieces(s.drop_first(), c)
    }
}

pub proof fn lemma_seq_pieces_nonneg(s: Seq<Point>, c: Color)
    ensures
        seq_pieces(s, c) >= 0,
    decreases s.len(),
{
    if s.len() > 0 {
        lemma_seq_pieces_nonneg(s.drop_first(), c);
    }
}

/// Replacing one point changes a color's board total by exactly the
/// difference the replaced point makes.
pub proof fn lemma_seq_pieces_update(s: Seq<Point>, c: Color, i: int, p: Point)
    requires
        0 <= i < s.len(),
    ensures
        seq_pieces(s.update(i, p), c) == seq_pieces(s, c) - piece_count(s[i], c) + piece_count(
            p,
            c,
        ),
    decreases s.len(),
{
    if i == 0 {
        assert(s.update(0, p).drop_first() =~= s.drop_first());
        assert(s.update(0, p)[0] == p);
    } else {
        lemma_seq_pieces_update(s.drop_first(), c, i - 1, p);
        assert(s.update(i, p).drop_first() =~= s.drop_first().update(i - 1, p));
        assert(s.update(i, p)[0] == s[0]);
    }
}

/// A point owned by `c` never holds more pieces than `c`'s board total.
pub proof fn lemma_point_le_seq_pieces(s: Seq<Point>, c: Color, i: int)
    requires
        0 <= i < s.len(),
        s[i].owner == c,
    ensures
        s[i].count as int <= seq_pieces(s, c),
    decreases s.len(),
{
    if i == 0 {
        lemma_seq_pieces_nonneg(s.drop_first(), c);
    } else {
        lemma_point_le_seq_pieces(s.drop_first(), c, i - 1);
        assert(s.drop_first()[i - 1] == s[i]);
    }
}

/// A sequence of empty points contributes no pieces.
pub proof fn lemma_seq_pieces_all_empty(s: Seq<Point>, c: Color)
    requires
        forall|i: int| 0 <= i < s.len() ==> s[i].count == 0,
    ensures
        seq_pieces(s, c) == 0,
    decreases s.len(),
{
    if s.len() > 0 {
        assert(forall|i: int|
            0 <= i < s.drop_first().len() ==> s.drop_first()[i] == s[i + 1]);
        lemma_seq_pieces_all_empty(s.drop_first(), c);
    }
}

/// Appending one point adds exactly its contribution.
pub proof fn lemma_seq_pieces_push(s: Seq<Point>, c: Color, p: Point)
    ensures
        seq_pieces(s.push(p), c) == seq_pieces(s, c) + piece_count(p, c),
    decreases s.len(),
{
    if s.len() == 0 {
        assert(s.push(p)[0] == p);
        assert(s.push(p).drop_first() =~= s);
    } else {
        assert(s.push(p).drop_first() =~= s.drop_first().push(p));
        lemma_seq_pieces_push(s.drop_first(), c, p);
    }
}

/// Extending a prefix by one point adds exactly that point's contribution.
pub proof fn lemma_seq_pieces_take_succ(s: Seq<Point>, c: Color, i: int)
    requires
        0 <= i < s.len(),
    ensures
        seq_pieces(s.take(i + 1), c) == seq_pieces(s.take(i), c) + piece_count(s[i], c),
{
    assert(s.take(i + 1) =~= s.take(i).push(s[i]));
    lemma_seq_pieces_push(s.take(i), c, s[i]);
}

/// A prefix never holds more pieces than the whole sequence.
pub proof fn lemma_seq_pieces_prefix_le(s: Seq<Point>, c: Color, i: int)
    requires
        0 <= i <= s.len(),
    ensures
        seq_pieces(s.take(i), c) <= seq_pieces(s, c),
    decreases s.len() - i,
{
    if i == s.len() {
        assert(s.take(i) =~= s);
    } else {
        lemma_seq_pieces_take_succ(s, c, i);
        lemma_seq_pieces_prefix_le(s, c, i + 1);
    }
}

/// The standard opening layout, from Black's point of view: two on the
/// far point, five at the quarter marks, and so on, mirrored for White.
pub open spec fn standard_point(i: int) -> Point {
    if i == 0 {
        Point { owner: Color::Black, count: 2u32 }
    } else if i == 5 {
        Point { owner: Color::White, count: 5u32 }
    } else if i == 7 {
        Point { owner: Color::White, count: 3u32 }
    } else if i == 11 {
        Point { owner: Color::Black, count: 5u32 }
    } else if i == 12 {
        Point { owner: Color::White, count: 5u32 }
    } else if i == 16 {
        Point { owner: Color::Black, count: 3u32 }
    } else if i == 18 {
        Point { owner: Color::Black, count: 5u32 }
    } else if i == 23 {
        Point { owner: Color::White, count: 2u32 }
    } else {
        Point { owner: Color::White, count: 0u32 }
    }
}

/// The board: 24 points in a fixed order, plus a bar counter per color for
/// captured pieces awaiting re-entry.
pub struct BoardState {
    pub points: Vec<Point>,
    pub bar_white: u32,
    pub bar_black: u32,
}

impl BoardState {
    /// The points as a sequence, for contracts.
    pub open spec fn spec_points(self) -> Seq<Point> {
        self.points@
    }

    /// Pieces of `c` on `c`'s bar.
    pub open spec fn spec_bar(self, c: Color) -> int {
        match c {
            Color::White => self.bar_white as int,
            Color::Black => self.bar_black as int,
        }
    }

    /// Pieces of `c` on the board, bar excluded.
    pub open spec fn board_pieces(self, c: Color) -> int {
        seq_pieces(self.points@, c)
    }

    /// Pieces of `c` still in play: board plus bar.  Bearing off removes a
    /// piece from this total for good.
    pub open spec fn total_pieces(self, c: Color) -> int {
        self.board_pieces(c) + self.spec_bar(c)
    }

    /// Well-formedness: exactly 24 points, and each side within its
    /// 15-checker allotment.  The standard opening layout establishes 15 of
    /// each, and no operation ever creates a piece.
    pub open spec fn wf(self) -> bool {
        &&& self.points@.len() == 24
        &&& self.total_pieces(Color::White) <= 15
        &&& self.total_pieces(Color::Black) <= 15
    }

    /// Read one point.
    pub fn point(&self, i: usize) -> (p: Point)
        requires
            i < self.spec_points().len(),
        ensures
            p == self.spec_points()[i as int],
    {
        self.points[i]
    }

    /// Read a bar counter.
    pub fn bar(&self, c: Color) -> (n: u32)
        ensures
            n as int == self.spec_bar(c),
    {
        match c {
            Color::White => self.bar_white,
            Color::Black => self.bar_black,
        }
    }

    /// A board with no pieces anywhere.
    pub fn empty() -> (b: BoardState)
        ensures
            b.wf(),
            b.spec_points().len() == 24,
            forall|i: int|
                0 <= i < 24 ==> b.spec_points()[i] == (Point {
                    owner: Color::White,
                    count: 0u32,
                }),
            b.spec_bar(Color::White) == 0,
            b.spec_bar(Color::Black) == 0,
            b.total_pieces(Color::White) == 0,
            b.total_pieces(Color::Black) == 0,
    {
        let mut points: Vec<Point> = Vec::new();
        let mut i: usize = 0;
        while i < 24
            invariant
                i <= 24,
                points@.len() == i as int,
                forall|j: int|
                    0 <= j < i as int ==> points@[j] == (Point {
                        owner: Color::White,
                        count: 0u32,
                    }),
            decreases 24 - i,
        {
            points.push(Point { owner: Color::White, count: 0 });
            i += 1;
        }
        proof {
            lemma_seq_pieces_all_empty(points@, Color::White);
            lemma_seq_pieces_all_empty(points@, Color::Black);
        }
        BoardState { points, bar_white: 0, bar_black: 0 }
    }

    /// Count the pieces of `c` on the board, bar excluded.
    #[verifier::loop_isolation(false)]
    pub fn pieces_on_board(&self, c: Color) -> (n: u32)
        requires
            self.wf(),
        ensures
            n as int == self.board_pieces(c),
            n <= 15,
    {
        let mut n: u32 = 0;
        let mut i: usize = 0;
        while i < 24
            invariant
                i <= 24,
                n as int == seq_pieces(self.spec_points().take(i as int), c),
            decreases 24 - i,
        {
            proof {
                lemma_seq_pieces_take_succ(self.spec_points(), c, i as int);
                lemma_seq_pieces_prefix_le(self.spec_points(), c, i as int + 1);
            }
            let p = self.point(i);
            if p.owner == c {
                n = n + p.count;
            }
            i += 1;
        }
        proof {
            assert(self.spec_points().take(24) =~= self.spec_points());
        }
        n
    }

    /// Overwrite one point, refusing a write that would push either color
    /// past its 15-piece allotment.  This is the raw mutation primitive:
    /// it checks capacity only, never move legality.
    pub fn set_point(&mut self, i: usize, owner: Color, count: u32) -> (ok: bool)
        requires
            old(self).wf(),
            i < 24,
        ensures
            final(self).wf(),
            ok == ({
                let p = Point { owner, count };
                let old_p = old(self).spec_points()[i as int];
                &&& old(self).total_pieces(Color::White) - piece_count(old_p, Color::White)
                    + piece_count(p, Color::White) <= 15
                &&& old(self).total_pieces(Color::Black) - piece_count(old_p, Color::Black)
                    + piece_count(p, Color::Black) <= 15
            }),
            ok ==> {
                let p = Point { owner, count };
                let old_p = old(self).spec_points()[i as int];
                &&& final(self).spec_points() == old(self).spec_points().update(i as int, p)
                &&& final(self).spec_bar(Color::White) == old(self).spec_bar(Color::White)
                &&& final(self).spec_bar(Color::Black) == old(self).spec_bar(Color::Black)
                &&& final(self).total_pieces(Color::White) == old(self).total_pieces(Color::White)
                    - piece_count(old_p, Color::White) + piece_count(p, Color::White)
                &&& final(self).total_pieces(Color::Black) == old(self).total_pieces(Color::Black)
                    - piece_count(old_p, Color::Black) + piece_count(p, Color::Black)
            },
            !ok ==> *final(self) == *old(self),
    {
        let old_p = self.point(i);
        let board_w = self.pieces_on_board(Color::White);
        let board_b = self.pieces_on_board(Color::Black);
        let total_w = board_w + self.bar(Color::White);
        let total_b = board_b + self.bar(Color::Black);
        proof {
            if old_p.owner == Color::White {
                lemma_point_le_seq_pieces(self.spec_points(), Color::White, i as int);
            } else {
                lemma_point_le_seq_pieces(self.spec_points(), Color::Black, i as int);
            }
        }
        let old_w: u64 = if old_p.owner == Color::White {
            old_p.count as u64
        } else {
            0
        };
        let old_b: u64 = if old_p.owner == Color::Black {
            old_p.count as u64
        } else {
            0
        };
        let add_w: u64 = if owner == Color::White {
            count as u64
        } else {
            0
        };
        let add_b: u64 = if owner == Color::Black {
            count as u64
        } else {
            0
        };
        let new_w: u64 = total_w as u64 - old_w + add_w;
        let new_b: u64 = total_b as u64 - old_b + add_b;
        if new_w <= 15 && new_b <= 15 {
            let ghost s0 = self.spec_points();
            self.points.set(i, Point { owner, count });
            proof {
                lemma_seq_pieces_update(s0, Color::White, i as int, Point { owner, count });
                lemma_seq_pieces_update(s0, Color::Black, i as int, Point { owner, count });
            }
            true
        } else {
            false
        }
    }

    /// Overwrite a bar counter, refusing a write that would push the color
    /// past its 15-piece allotment.
    pub fn set_bar(&mut self, c: Color, n: u32) -> (ok: bool)
        requires
            old(self).wf(),
        ensures
            final(self).wf(),
            ok == (old(self).board_pieces(c) + n <= 15),
            ok ==> {
                &&& final(self).spec_bar(c) == n
                &&& final(self).spec_bar(c.spec_opposite()) == old(self).spec_bar(
                    c.spec_opposite(),
                )
                &&& final(self).spec_points() == old(self).spec_points()
            },
            !ok ==> *final(self) == *old(self),
    {
        let board_n = self.pieces_on_board(c);
        if n <= 15 && board_n + n <= 15 {
            match c {
                Color::White => self.bar_white = n,
                Color::Black => self.bar_black = n,
            }
            true
        } else {
            false
        }
    }

    /// The standard opening layout: 15 pieces per side, empty bars.
    pub fn new_game() -> (b: BoardState)
        ensures
            b.wf(),
            b.spec_points().len() == 24,
            forall|i: int| 0 <= i < 24 ==> b.spec_points()[i] == standard_point(i),
            b.spec_bar(Color::White) == 0,
            b.spec_bar(Color::Black) == 0,
            b.total_pieces(Color::White) == 15,
            b.total_pieces(Color::Black) == 15,
    {
        let mut b = BoardState::empty();
        place(&mut b, 0, Color::Black, 2);
        place(&mut b, 5, Color::White, 5);
        place(&mut b, 7, Color::White, 3);
        place(&mut b, 11, Color::Black, 5);
        place(&mut b, 12, Color::White, 5);
        place(&mut b, 16, Color::Black, 3);
        place(&mut b, 18, Color::Black, 5);
        place(&mut b, 23, Color::White, 2);
        b
    }
}

/// Drop a stack onto an empty point while the opening layout is built.
fn place(b: &mut BoardState, i: usize, owner: Color, count: u32)
    requires
        old(b).spec_points().len() == 24,
        i < 24,
        old(b).spec_points()[i as int].count == 0,
    ensures
        final(b).spec_points() == old(b).spec_points().update(
            i as int,
            Point { owner, count },
        ),
        final(b).spec_bar(Color::White) == old(b).spec_bar(Color::White),
        final(b).spec_bar(Color::Black) == old(b).spec_bar(Color::Black),
        final(b).board_pieces(owner) == old(b).board_pieces(owner) + count,
        final(b).board_pieces(owner.spec_opposite()) == old(b).board_pieces(
            owner.spec_opposite(),
        ),
{
    let ghost s0 = b.spec_points();
    b.points.set(i, Point { owner, count });
    proof {
        lemma_seq_pieces_update(s0, Color::White, i as int, Point { owner, count });
        lemma_seq_pieces_update(s0, Color::Black, i as int, Point { owner, count });
    }
}

} // verus!
