//! The virtual cursor of a pane.

use vstd::prelude::*;

verus! {

/// A position on the grid, counted from 0, that never leaves
/// `[0, x_max] x [0, y_max]`. Every move saturates at the bounds.
#[derive(Clone, Copy, Debug, PartialEq, Eq, Structural)]
pub struct Cursor {
    pub x: u16,
    pub y: u16,
    pub x_max: u16,
    pub y_max: u16,
}

/// `n` moved up by `offset`, but not beyond `max`.
pub open spec fn saturating_up(n: u16, offset: u16, max: u16) -> u16 {
    if n + offset <= max {
        (n + offset) as u16
    } else {
        max
    }
}

/// `n` moved down by `offset`, but not below 0.
pub open spec fn saturating_down(n: u16, offset: u16) -> u16 {
    if offset <= n {
        (n - offset) as u16
    } else {
        0
    }
}

/// The smaller of `n` and `max`.
pub open spec fn at_most(n: u16, max: u16) -> u16 {
    if n <= max {
        n
    } else {
        max
    }
}

impl Cursor {
    /// The cursor lies within its bounds.
    pub open spec fn wf(self) -> bool {
        self.x <= self.x_max && self.y <= self.y_max
    }

    /// The column on the screen, counted from 1.
    pub fn col(&self) -> (c: i32)
        ensures
            c == self.x + 1,
    {
        self.x as i32 + 1
    }

    /// The row on the screen, counted from 1.
    pub fn row(&self) -> (r: i32)
        ensures
            r == self.y + 1,
    {
        self.y as i32 + 1
    }

    pub fn x(&self) -> (x: u16)
        ensures
            x == self.x,
    {
        self.x
    }

    pub fn y(&self) -> (y: u16)
        ensures
            y == self.y,
    {
        self.y
    }

    /// Sets the column to `n`, or to the last one allowed if `n` lies beyond.
    pub fn set_x(&mut self, n: u16)
        ensures
            *final(self) == (Cursor { x: at_most(n, old(self).x_max), ..*old(self) }),
            old(self).wf() ==> final(self).wf(),
    {
        self.x = if n <= self.x_max { n } else { self.x_max };
    }

    /// Sets the row to `n`, or to the last one allowed if `n` lies beyond.
    pub fn set_y(&mut self, n: u16)
        ensures
            *final(self) == (Cursor { y: at_most(n, old(self).y_max), ..*old(self) }),
            old(self).wf() ==> final(self).wf(),
    {
        self.y = if n <= self.y_max { n } else { self.y_max };
    }

    /// Moves right by `offset`, not beyond the last column allowed.
    pub fn incr_x(&mut self, offset: u16)
        ensures
            *final(self) == (Cursor {
                x: saturating_up(old(self).x, offset, old(self).x_max),
                ..*old(self)
            }),
            old(self).wf() ==> final(self).wf(),
    {
        if self.x <= self.x_max && offset <= self.x_max - self.x {
            self.x = self.x + offset;
        } else {
            self.x = self.x_max;
        }
    }

    /// Moves down by `offset`, not beyond the last row allowed.
    pub fn incr_y(&mut self, offset: u16)
        ensures
            *final(self) == (Cursor {
                y: saturating_up(old(self).y, offset, old(self).y_max),
                ..*old(self)
            }),
            old(self).wf() ==> final(self).wf(),
    {
        if self.y <= self.y_max && offset <= self.y_max - self.y {
            self.y = self.y + offset;
        } else {
            self.y = self.y_max;
        }
    }

    /// Moves left by `offset`, not beyond column 0.
    pub fn decr_x(&mut self, offset: u16)
        ensures
            *final(self) == (Cursor { x: saturating_down(old(self).x, offset), ..*old(self) }),
            old(self).wf() ==> final(self).wf(),
    {
        self.x = if offset <= self.x { self.x - offset } else { 0 };
    }

    /// Moves up by `offset`, not beyond row 0.
    pub fn decr_y(&mut self, offset: u16)
        ensures
            *final(self) == (Cursor { y: saturating_down(old(self).y, offset), ..*old(self) }),
            old(self).wf() ==> final(self).wf(),
    {
        self.y = if offset <= self.y { self.y - offset } else { 0 };
    }

    /// A cursor at the origin of a grid of the given size.
    pub fn new(max_width: u16, max_height: u16) -> (c: Cursor)
        ensures
            c == (Cursor { x: 0, y: 0, x_max: max_width, y_max: max_height }),
            c.wf(),
    {
        Cursor { x: 0, y: 0, x_max: max_width, y_max: max_height }
    }
}

} // verus!
