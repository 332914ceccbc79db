//! The dice pool: two pip slots and a doubles counter.
//!
//! A slot is `Some(v)` while the face `v` is still usable this turn and
//! `None` once it has been consumed.  When a roll comes up as a double, the
//! repeated value is usable four times, tracked by `doubles_left`; the
//! counter is only meaningful while both slots still show the same pending
//! value.

use vstd::prelude::*;

verus! {

/// A pending slot holds a die face.
pub open spec fn slot_ok(s: Option<u8>) -> bool {
    match s {
        Some(v) => 1 <= v <= 6,
        None => true,
    }
}

/// The slot is pending and shows exactly `pip`.
pub open spec fn slot_is(s: Option<u8>, pip: int) -> bool {
    s matches Some(v) && v as int == pip
}

/// Relies on rand::Rng::gen_range over `1..=6`: a sample from the given
/// range, which is nonempty, so the call returns a value in it and does not
/// panic.  Nothing more can be promised of a random draw.
#[verifier::external_body]
fn roll_die() -> (r: u8)
    ensures
        1 <= r <= 6,
{
    rand::Rng::gen_range(&mut rand::thread_rng(), 1..=6)
}

/// The dice pool for the turn in progress.
pub struct DiceState {
    pub first: Option<u8>,
    pub second: Option<u8>,
    pub doubles_left: u8,
}

/// How a fresh roll relates to the pool it replaces: both slots pending
/// with faces in 1..6; a double arms the counter with its four uses, while
/// a mixed roll leaves the counter alone (it is meaningless until the next
/// double anyway).
pub open spec fn rerolled(pre: DiceState, post: DiceState) -> bool {
    &&& post.first matches Some(a) && 1 <= a <= 6
    &&& post.second matches Some(b) && 1 <= b <= 6
    &&& post.first == post.second ==> post.doubles_left == 4
    &&& post.first != post.second ==> post.doubles_left == pre.doubles_left
}

impl DiceState {
    /// Both dice show the same pending face.
    pub open spec fn is_double(self) -> bool {
        self.first is Some && self.first == self.second
    }

    /// Well-formedness: faces in range, and while a double is pending its
    /// counter still has between one and four uses left.
    pub open spec fn wf(self) -> bool {
        &&& slot_ok(self.first)
        &&& slot_ok(self.second)
        &&& self.is_double() ==> 1 <= self.doubles_left <= 4
    }

    /// A pip of `pip` steps can be consumed: some pending slot shows it.
    pub open spec fn can_use(self, pip: int) -> bool {
        slot_is(self.first, pip) || slot_is(self.second, pip)
    }

    /// The pool after consuming `pip`.  On a pending double of that value
    /// one use is spent, and the last use clears both slots; on a mixed
    /// roll the first slot showing `pip` is cleared; a `pip` matching no
    /// slot changes nothing (callers pre-check with `can_consume`).
    pub open spec fn consumed_dice(self, pip: int) -> DiceState {
        if self.is_double() && slot_is(self.first, pip) {
            if self.doubles_left == 1 {
                DiceState { first: None, second: None, doubles_left: 0 }
            } else {
                DiceState {
                    first: self.first,
                    second: self.second,
                    doubles_left: (self.doubles_left - 1) as u8,
                }
            }
        } else if slot_is(self.first, pip) {
            DiceState { first: None, second: self.second, doubles_left: self.doubles_left }
        } else if slot_is(self.second, pip) {
            DiceState { first: self.first, second: None, doubles_left: self.doubles_left }
        } else {
            self
        }
    }

    /// Consuming `pip` ends the turn exactly when it leaves no pending
    /// slot: on a mixed roll, when the other slot was already spent; on a
    /// double, when the fourth use goes.
    pub open spec fn consume_ends_turn(self, pip: int) -> bool {
        self.consumed_dice(pip).first is None && self.consumed_dice(pip).second is None
    }

    /// A pool with the given roll already made, as `reroll` would leave it.
    pub fn with_roll(a: u8, b: u8) -> (d: DiceState)
        requires
            1 <= a <= 6,
            1 <= b <= 6,
        ensures
            d.wf(),
            d.first == Some(a),
            d.second == Some(b),
            d.doubles_left == (if a == b {
                4int
            } else {
                0int
            }),
    {
        DiceState {
            first: Some(a),
            second: Some(b),
            doubles_left: if a == b {
                4
            } else {
                0
            },
        }
    }

    /// Draw two fresh dice for the next turn.  Equal faces arm the doubles
    /// counter with its four uses.
    pub fn reroll(&mut self)
        ensures
            final(self).wf(),
            rerolled(*old(self), *final(self)),
    {
        let a = roll_die();
        let b = roll_die();
        if a == b {
            self.doubles_left = 4;
        }
        self.first = Some(a);
        self.second = Some(b);
    }

    /// Does some pending die show `pip`?
    pub fn can_consume(&self, pip: u8) -> (r: bool)
        ensures
            r == self.can_use(pip as int),
    {
        let first_matches = match self.first {
            Some(v) => v == pip,
            None => false,
        };
        let second_matches = match self.second {
            Some(v) => v == pip,
            None => false,
        };
        first_matches || second_matches
    }

    /// Spend one use of `pip` and report whether the turn is over.
    pub fn consume(&mut self, pip: u8) -> (ended: bool)
        requires
            old(self).wf(),
        ensures
            final(self).wf(),
            *final(self) == old(self).consumed_dice(pip as int),
            ended == old(self).consume_ends_turn(pip as int),
    {
        let is_double = match (self.first, self.second) {
            (Some(a), Some(b)) => a == b,
            _ => false,
        };
        let first_is_pip = match self.first {
            Some(v) => v == pip,
            None => false,
        };
        let second_is_pip = match self.second {
            Some(v) => v == pip,
            None => false,
        };
        if is_double && first_is_pip {
            self.doubles_left = self.doubles_left - 1;
            if self.doubles_left == 0 {
                self.first = None;
                self.second = None;
                return true;
            }
            return false;
        }
        if first_is_pip {
            self.first = None;
        } else if second_is_pip {
            self.second = None;
        }
        match (self.first, self.second) {
            (None, None) => true,
            _ => false,
        }
    }
}

/// A double grants exactly four consumptions of its value: the first three
/// leave the turn open, and the fourth ends it.
pub proof fn lemma_double_exhausts_in_four(d: DiceState, v: u8)
    requires
        d.wf(),
        d.first == Some(v),
        d.second == Some(v),
        d.doubles_left == 4,
    ensures
        !d.consume_ends_turn(v as int),
        !d.consumed_dice(v as int).consume_ends_turn(v as int),
        !d.consumed_dice(v as int).consumed_dice(v as int).consume_ends_turn(v as int),
        d.consumed_dice(v as int).consumed_dice(v as int).consumed_dice(v as int).consume_ends_turn(
            v as int,
        ),
{
}

} // verus!
