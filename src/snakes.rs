use vstd::prelude::*;
use crate::direction::Direction;
use crate::grid::GridPosition;

verus! {

/// The length a fresh snake is given.
pub const DEFAULT_LENGTH: u32 = 6;

/// A snake: its head cell, the cells of its body from just behind the head to the
/// tail, the heading it last moved in and the intent it holds for this turn.
#[derive(Debug, Clone, PartialEq, Eq)]
pub struct Snake {
    /// Target length, head included.
    pub length: u32,
    pub head: GridPosition,
    pub body: Vec<GridPosition>,
    pub direction: Direction,
    pub intent: Option<Direction>,
}

/// How many body cells a snake of target length `length` keeps behind its head.
pub open spec fn kept_segments(length: u32) -> int {
    if length == 0 {
        0
    } else {
        length - 1
    }
}

impl Snake {
    /// A fresh snake on `position`, facing north, with no body yet.
    pub fn new(position: GridPosition) -> (r: Snake)
        ensures
            r.length == DEFAULT_LENGTH,
            r.head == position,
            r.body@.len() == 0,
            r.direction == Direction::North,
            r.intent is None,
    {
        Snake {
            length: DEFAULT_LENGTH,
            head: position,
            body: Vec::new(),
            direction: Direction::North,
            intent: None,
        }
    }

    /// A snake with a body may not turn straight back; one without may go anywhere.
    pub open spec fn may_move(&self, d: Direction) -> bool {
        self.body@.len() == 0 || d != self.direction.reversed()
    }

    /// The intent the snake ends the request stage with: its own when legal, else
    /// its current heading.
    pub open spec fn settled_intent(&self) -> Direction {
        match self.intent {
            Some(d) => if self.may_move(d) {
                d
            } else {
                self.direction
            },
            None => self.direction,
        }
    }

    pub fn can_move(&self, direction: Direction) -> (r: bool)
        ensures
            r == self.may_move(direction),
    {
        self.body.len() == 0 || direction != self.direction.opposite()
    }

    /// Replaces an intent that would reverse the snake by its current heading.
    pub fn limit_move(&mut self)
        ensures
            final(self).intent == (match old(self).intent {
                Some(d) => Some(
                    if old(self).may_move(d) {
                        d
                    } else {
                        old(self).direction
                    },
                ),
                None => None::<Direction>,
            }),
            old(self).body@.len() > 0 && old(self).intent == Some(old(self).direction.reversed())
                ==> final(self).intent == Some(old(self).direction),
            *final(self) == (Snake { intent: final(self).intent, ..*old(self) }),
    {
        if let Some(d) = self.intent {
            if !self.can_move(d) {
                self.intent = Some(self.direction);
            }
        }
    }

    /// Gives a snake without an intent its current heading as intent.
    pub fn default_move(&mut self)
        ensures
            final(self).intent == Some(
                match old(self).intent {
                    Some(d) => d,
                    None => old(self).direction,
                },
            ),
            *final(self) == (Snake { intent: final(self).intent, ..*old(self) }),
    {
        if self.intent.is_none() {
            self.intent = Some(self.direction);
        }
    }

    /// Both fix-ups of the request stage: afterwards the intent is the settled one.
    pub fn settle_intent(&mut self)
        ensures
            final(self).intent == Some(old(self).settled_intent()),
            *final(self) == (Snake { intent: final(self).intent, ..*old(self) }),
    {
        self.limit_move();
        self.default_move();
    }

    /// Moves the snake by its intent: the old head cell becomes the first body
    /// cell, the tail is trimmed to the target length, the head steps on and the
    /// intent is consumed.
    pub fn slither(&mut self)
        requires
            old(self).intent matches Some(d) && old(self).head.can_step(d),
        ensures
            ({
                let d = old(self).intent->Some_0;
                let grown = seq![old(self).head] + old(self).body@;
                &&& final(self).body@ == grown.take(
                    if grown.len() < kept_segments(old(self).length) {
                        grown.len() as int
                    } else {
                        kept_segments(old(self).length)
                    },
                )
                &&& final(self).head == old(self).head.stepped(d)
                &&& final(self).direction == d
                &&& final(self).intent is None
                &&& final(self).length == old(self).length
            }),
    {
        let d = match self.intent {
            Some(d) => d,
            None => self.direction,
        };
        let ghost grown = seq![self.head] + self.body@;
        self.body.insert(0, self.head);
        assert(self.body@ =~= grown);
        let keep: usize = if self.length == 0 {
            0
        } else {
            (self.length - 1) as usize
        };
        if self.body.len() > keep {
            self.body.truncate(keep);
        }
        assert(self.body@ =~= grown.take(
            if grown.len() < kept_segments(self.length) {
                grown.len() as int
            } else {
                kept_segments(self.length)
            },
        ));
        self.direction = d;
        self.head = self.head.step(d);
        self.intent = None;
    }

    /// Applies the growth of a meal. A shrink larger than the current length kills
    /// the snake (`true`) and leaves its length unchanged; growth stops at `u32::MAX`.
    pub fn feed(&mut self, growth: i64) -> (died: bool)
        ensures
            died == (growth < 0 && -growth > old(self).length),
            final(self).length == if died {
                old(self).length as int
            } else if old(self).length + growth > u32::MAX {
                u32::MAX as int
            } else {
                old(self).length + growth
            },
            *final(self) == (Snake { length: final(self).length, ..*old(self) }),
    {
        if growth < 0 {
            if growth < -(self.length as i64) {
                true
            } else {
                self.length = (self.length as i64 + growth) as u32;
                false
            }
        } else {
            if growth > (u32::MAX - self.length) as i64 {
                self.length = u32::MAX;
            } else {
                self.length = self.length + growth as u32;
            }
            false
        }
    }
}


/// A snake with a body never ends the request stage holding the heading straight
/// back: such an intent gives way to the current heading.
pub proof fn lemma_no_reversal(s: Snake)
    requires
        s.body@.len() > 0,
    ensures
        s.settled_intent() != s.direction.reversed(),
        s.intent == Some(s.direction.reversed()) ==> s.settled_intent() == s.direction,
{
}

} // verus!
