use vstd::prelude::*;

verus! {

/// Decrement that saturates at zero: the coordinate never goes negative.
pub open spec fn dec_sat(v: int) -> int {
    if v > 0 {
        v - 1
    } else {
        0
    }
}

/// Increment that stops at the largest representable coordinate.
pub open spec fn inc_sat(v: int) -> int {
    if v < u16::MAX {
        v + 1
    } else {
        v
    }
}

/// The logical edit point: a column/row pair in buffer coordinates.
///
/// Moves toward the origin saturate at zero. Moves away from the origin are
/// unconditional; a caller must keep the coordinate below `u16::MAX` so the
/// increment stays representable.
#[derive(Clone, Copy, PartialEq, Eq, Structural, Debug)]
pub struct Cursor {
    pub x: u16,
    pub y: u16,
}

impl Cursor {
    pub fn new(x: u16, y: u16) -> (c: Cursor)
        ensures
            c.x == x,
            c.y == y,
    {
        Cursor { x, y }
    }

    pub fn move_up(&mut self)
        ensures
            final(self).y as int == dec_sat(old(self).y as int),
            final(self).x == old(self).x,
    {
        self.y = if self.y > 0 {
            self.y - 1
        } else {
            0
        };
    }

    pub fn move_down(&mut self)
        requires
            old(self).y < u16::MAX,
        ensures
            final(self).y == old(self).y + 1,
            final(self).x == old(self).x,
    {
        self.y = self.y + 1;
    }

    pub fn move_left(&mut self)
        ensures
            final(self).x as int == dec_sat(old(self).x as int),
            final(self).y == old(self).y,
    {
        self.x = if self.x > 0 {
            self.x - 1
        } else {
            0
        };
    }

    pub fn move_right(&mut self)
        requires
            old(self).x < u16::MAX,
        ensures
            final(self).x == old(self).x + 1,
            final(self).y == old(self).y,
    {
        self.x = self.x + 1;
    }

    pub fn pos(&self) -> (p: (u16, u16))
        ensures
            p.0 == self.x,
            p.1 == self.y,
    {
        (self.x, self.y)
    }
}

} // verus!
