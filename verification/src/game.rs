//! The turn controller: one session's whole state and its transitions.
//!
//! A `Game` owns the board, the dice pool and the active color.  Every
//! successful move or bear-off consumes a pip; when the pool runs dry the
//! color flips and the dice are rerolled.  A forced pass flips and rerolls
//! unconditionally.

use vstd::prelude::*;

use crate::board::{standard_point, BoardState, Color, Point};
use crate::board::lemma_seq_pieces_update;
use crate::dice::{rerolled, DiceState};
use crate::moves::{
    bear_off_check, bear_off_pip, entered_from_bar, has_piece, move_off_bar, move_ordinary,
    off_bar_check, ordinary_check, ordinary_moved, MoveError,
};

verus! {

/// One backgammon session: board, dice and the color to move.
pub struct Game {
    pub board: BoardState,
    pub dice: DiceState,
    pub active: Color,
}

/// The pip an ordinary move between two points asks for: the absolute
/// index distance.  Direction is the validator's business.
pub open spec fn pip_for_move(start: int, end: int) -> int {
    if end >= start {
        end - start
    } else {
        start - end
    }
}

/// The pip a re-entry from the bar onto `end` asks for: the distance from
/// the mover's entry edge.
pub open spec fn entry_pip(c: Color, end: int) -> int {
    match c {
        Color::Black => end + 1,
        Color::White => 24 - end,
    }
}

/// How dice and turn stand after a pip is consumed: either the turn goes
/// on with the pool reduced, or it ends, the color flips and a fresh roll
/// replaces the pool.
pub open spec fn turn_advanced(pre: Game, post: Game, pip: int) -> bool {
    if pre.dice.consume_ends_turn(pip) {
        &&& post.active == pre.active.spec_opposite()
        &&& rerolled(pre.dice.consumed_dice(pip), post.dice)
    } else {
        &&& post.active == pre.active
        &&& post.dice == pre.dice.consumed_dice(pip)
    }
}

/// Why a full ordinary-move attempt is rejected, or `None` when it goes
/// through: the bar gate first, then a die showing the distance, then the
/// board rules.
pub open spec fn play_move_check(g: Game, start: int, end: int) -> Option<MoveError> {
    if g.board.spec_bar(g.active) > 0 {
        Some(MoveError::BarNotEmpty)
    } else if !g.dice.can_use(pip_for_move(start, end)) {
        Some(MoveError::PipMismatch)
    } else {
        ordinary_check(g.board, g.active, start, end)
    }
}

/// Why a full re-entry attempt is rejected, or `None` when it goes
/// through: a die showing the entry distance first, then the board rules.
pub open spec fn play_off_bar_check(g: Game, end: int) -> Option<MoveError> {
    if !g.dice.can_use(entry_pip(g.active, end)) {
        Some(MoveError::PipMismatch)
    } else {
        off_bar_check(g.board, g.active, end)
    }
}

impl Game {
    /// Well-formedness of the whole session.
    pub open spec fn wf(self) -> bool {
        self.board.wf() && self.dice.wf()
    }

    /// A fresh game: the standard opening layout, a first roll made, and
    /// Black to move.
    pub fn new() -> (g: Game)
        ensures
            g.wf(),
            forall|i: int| 0 <= i < 24 ==> g.board.spec_points()[i] == standard_point(i),
            g.board.spec_bar(Color::White) == 0,
            g.board.spec_bar(Color::Black) == 0,
            g.board.total_pieces(Color::White) == 15,
            g.board.total_pieces(Color::Black) == 15,
            g.active == Color::Black,
            rerolled(DiceState { first: None, second: None, doubles_left: 0u8 }, g.dice),
    {
        let mut dice = DiceState { first: None, second: None, doubles_left: 0 };
        dice.reroll();
        Game { board: BoardState::new_game(), dice, active: Color::Black }
    }

    /// Consume `pip` after a successful move; when that empties the pool,
    /// flip the active color and reroll.
    pub fn run_turn(&mut self, pip: u8) -> (ended: bool)
        requires
            old(self).wf(),
        ensures
            final(self).wf(),
            final(self).board == old(self).board,
            turn_advanced(*old(self), *final(self), pip as int),
            ended == old(self).dice.consume_ends_turn(pip as int),
    {
        let ended = self.dice.consume(pip);
        if ended {
            self.active = self.active.opposite();
            self.dice.reroll();
        }
        ended
    }

    /// Force the turn over regardless of pips left: flip the color and
    /// reroll.  The escape hatch for stuck positions; no legality check.
    pub fn force_end_turn(&mut self)
        requires
            old(self).wf(),
        ensures
            final(self).wf(),
            final(self).board == old(self).board,
            final(self).active == old(self).active.spec_opposite(),
            rerolled(old(self).dice, final(self).dice),
    {
        self.active = self.active.opposite();
        self.dice.reroll();
    }

    /// Attempt a full ordinary move of the active color from `start` to
    /// `end`: bar gate, matching die, board rules, then application and
    /// pip consumption.  A rejection changes nothing.
    pub fn play_move(&mut self, start: usize, end: usize) -> (r: Result<(), MoveError>)
        requires
            old(self).wf(),
            start < 24,
        ensures
            final(self).wf(),
            match r {
                Err(e) => play_move_check(*old(self), start as int, end as int) == Some(e)
                    && *final(self) == *old(self),
                Ok(()) => {
                    &&& play_move_check(*old(self), start as int, end as int) is None
                    &&& ordinary_moved(
                        old(self).board,
                        final(self).board,
                        old(self).active,
                        start as int,
                        end as int,
                    )
                    &&& turn_advanced(
                        *old(self),
                        *final(self),
                        pip_for_move(start as int, end as int),
                    )
                    &&& forall|c: Color|
                        final(self).board.total_pieces(c) == old(self).board.total_pieces(c)
                },
            },
    {
        let color = self.active;
        if self.board.bar(color) > 0 {
            return Err(MoveError::BarNotEmpty);
        }
        let dist: usize = if end >= start {
            end - start
        } else {
            start - end
        };
        if !(dist <= 6 && self.dice.can_consume(dist as u8)) {
            proof {
                assert(!old(self).dice.can_use(pip_for_move(start as int, end as int)));
            }
            return Err(MoveError::PipMismatch);
        }
        match move_ordinary(&mut self.board, color, start, end) {
            Err(e) => Err(e),
            Ok(()) => {
                self.run_turn(dist as u8);
                Ok(())
            },
        }
    }

    /// Attempt a full re-entry of the active color from the bar onto
    /// `end`: matching die first, then the board rules, then application
    /// and pip consumption.  A rejection changes nothing.
    pub fn play_off_bar(&mut self, end: usize) -> (r: Result<(), MoveError>)
        requires
            old(self).wf(),
            end < 24,
        ensures
            final(self).wf(),
            match r {
                Err(e) => play_off_bar_check(*old(self), end as int) == Some(e) && *final(self)
                    == *old(self),
                Ok(()) => {
                    &&& play_off_bar_check(*old(self), end as int) is None
                    &&& entered_from_bar(
                        old(self).board,
                        final(self).board,
                        old(self).active,
                        end as int,
                    )
                    &&& turn_advanced(
                        *old(self),
                        *final(self),
                        entry_pip(old(self).active, end as int),
                    )
                    &&& forall|c: Color|
                        final(self).board.total_pieces(c) == old(self).board.total_pieces(c)
                },
            },
    {
        let color = self.active;
        let pip: usize = match color {
            Color::Black => end + 1,
            Color::White => 24 - end,
        };
        if !(pip <= 6 && self.dice.can_consume(pip as u8)) {
            proof {
                assert(!old(self).dice.can_use(entry_pip(old(self).active, end as int)));
            }
            return Err(MoveError::PipMismatch);
        }
        match move_off_bar(&mut self.board, color, end) {
            Err(e) => Err(e),
            Ok(()) => {
                self.run_turn(pip as u8);
                Ok(())
            },
        }
    }

    /// Would an ordinary move from `start` to `end` go through right now?
    /// A read-only query for highlighting; nothing changes.
    pub fn can_play_move(&self, start: usize, end: usize) -> (r: bool)
        requires
            self.wf(),
            start < 24,
        ensures
            r == (play_move_check(*self, start as int, end as int) is None),
    {
        let color = self.active;
        if self.board.bar(color) > 0 {
            return false;
        }
        let dist: usize = if end >= start {
            end - start
        } else {
            start - end
        };
        if !(dist <= 6 && self.dice.can_consume(dist as u8)) {
            proof {
                assert(!self.dice.can_use(pip_for_move(start as int, end as int)));
            }
            return false;
        }
        let fwd = match color {
            Color::Black => end > start,
            Color::White => end < start,
        };
        if !fwd || end >= 24 {
            return false;
        }
        let src = self.board.point(start);
        if !(src.owner == color && src.count > 0) {
            return false;
        }
        let dst = self.board.point(end);
        !(dst.owner != color && dst.count >= 2)
    }

    /// Would a re-entry from the bar onto `end` go through right now?
    /// A read-only query for highlighting; nothing changes.
    pub fn can_play_off_bar(&self, end: usize) -> (r: bool)
        requires
            self.wf(),
            end < 24,
        ensures
            r == (play_off_bar_check(*self, end as int) is None),
    {
        let color = self.active;
        let pip: usize = match color {
            Color::Black => end + 1,
            Color::White => 24 - end,
        };
        if !(pip <= 6 && self.dice.can_consume(pip as u8)) {
            proof {
                assert(!self.dice.can_use(entry_pip(self.active, end as int)));
            }
            return false;
        }
        if self.board.bar(color) == 0 {
            return false;
        }
        let in_quadrant = match color {
            Color::Black => end <= 5,
            Color::White => 17 <= end && end <= 23,
        };
        if !in_quadrant {
            return false;
        }
        let dst = self.board.point(end);
        !(dst.owner != color && dst.count >= 2)
    }

    /// Would a bear-off at `point` go through right now?  A read-only
    /// query for highlighting; nothing changes.
    pub fn can_bear_off(&self, point: usize) -> (r: bool)
        requires
            self.wf(),
            point < 24,
        ensures
            r == (bear_off_check(self.board, self.dice, self.active, point as int) is Ok),
    {
        match bear_off_pip(&self.board, &self.dice, self.active, point) {
            Ok(_) => true,
            Err(_) => false,
        }
    }

    /// Attempt to bear off the active color's piece on `point`: bar gate,
    /// all pieces home, the point exactly the farthest-back occupied one,
    /// and a die of at least that distance; the matching die's face is
    /// consumed and the piece leaves play for good.  A rejection changes
    /// nothing.
    pub fn bear_off(&mut self, point: usize) -> (r: Result<(), MoveError>)
        requires
            old(self).wf(),
            point < 24,
        ensures
            final(self).wf(),
            match r {
                Err(e) => bear_off_check(
                    old(self).board,
                    old(self).dice,
                    old(self).active,
                    point as int,
                ) == Err::<u8, MoveError>(e) && *final(self) == *old(self),
                Ok(()) => {
                    let pre = old(self).board.spec_points();
                    let sel = pre[point as int];
                    &&& bear_off_check(
                        old(self).board,
                        old(self).dice,
                        old(self).active,
                        point as int,
                    ) matches Ok(pip) && turn_advanced(*old(self), *final(self), pip as int)
                    &&& final(self).board.spec_points() == pre.update(
                        point as int,
                        Point { owner: sel.owner, count: (sel.count - 1) as u32 },
                    )
                    &&& final(self).board.spec_bar(Color::White) == old(self).board.spec_bar(
                        Color::White,
                    )
                    &&& final(self).board.spec_bar(Color::Black) == old(self).board.spec_bar(
                        Color::Black,
                    )
                    // The piece is gone for good: no tray is credited.
                    &&& final(self).board.total_pieces(old(self).active) == old(
                        self,
                    ).board.total_pieces(old(self).active) - 1
                    &&& final(self).board.total_pieces(old(self).active.spec_opposite()) == old(
                        self,
                    ).board.total_pieces(old(self).active.spec_opposite())
                },
            },
    {
        let color = self.active;
        let pip = match bear_off_pip(&self.board, &self.dice, color, point) {
            Err(e) => {
                return Err(e);
            },
            Ok(p) => p,
        };
        let sel = self.board.point(point);
        proof {
            assert(has_piece(self.board.spec_points()[point as int], color));
        }
        let ghost s0 = self.board.spec_points();
        self.board.points.set(point, Point { owner: sel.owner, count: sel.count - 1 });
        proof {
            lemma_seq_pieces_update(
                s0,
                Color::White,
                point as int,
                Point { owner: sel.owner, count: (sel.count - 1) as u32 },
            );
            lemma_seq_pieces_update(
                s0,
                Color::Black,
                point as int,
                Point { owner: sel.owner, count: (sel.count - 1) as u32 },
            );
        }
        self.run_turn(pip);
        Ok(())
    }
}

} // verus!
