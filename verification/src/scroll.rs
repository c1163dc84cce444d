//! Scroll arithmetic: following the cursor, wheel scrolling, the gutter.

use vstd::prelude::*;

verus! {

/// A rectangle of terminal cells.
#[derive(Clone, Copy, Debug, PartialEq, Eq, Structural)]
pub struct Area {
    pub x: u16,
    pub y: u16,
    pub width: u16,
    pub height: u16,
}

impl Area {
    /// The cells inside a one-cell border: two fewer than `extent`, and
    /// none where `extent` is below two.
    pub open spec fn inner(extent: u16) -> nat {
        if extent >= 2 {
            (extent - 2) as nat
        } else {
            0
        }
    }

    /// The rows inside the border.
    pub fn inner_height(&self) -> (h: usize)
        ensures
            h == Self::inner(self.height),
    {
        if self.height >= 2 {
            (self.height - 2) as usize
        } else {
            0
        }
    }

    /// The columns inside the border.
    pub fn inner_width(&self) -> (w: usize)
        ensures
            w == Self::inner(self.width),
    {
        if self.width >= 2 {
            (self.width - 2) as usize
        } else {
            0
        }
    }

    /// Whether the cell `(x, y)` lies in the rectangle.
    pub open spec fn holds(self, x: u16, y: u16) -> bool {
        self.x <= x < self.x + self.width && self.y <= y < self.y + self.height
    }

    /// Whether the cell `(x, y)` lies in the rectangle.
    pub fn contains(&self, x: u16, y: u16) -> (r: bool)
        ensures
            r == self.holds(x, y),
    {
        x >= self.x && (x as u32) < self.x as u32 + self.width as u32 && y >= self.y && (y as u32)
            < self.y as u32 + self.height as u32
    }
}

/// The offset that keeps `pos` inside a window of `extent` cells that began
/// at `offset`: the window snaps back to `pos` when `pos` lies in front of
/// it, moves on until `pos` is its last cell when `pos` lies behind it, and
/// stays otherwise. A window of no cells never moves.
pub open spec fn follow_offset(offset: nat, pos: nat, extent: nat) -> nat {
    if extent == 0 {
        offset
    } else if pos < offset {
        pos
    } else if pos >= offset + extent {
        (pos - extent + 1) as nat
    } else {
        offset
    }
}

/// The offset after the wheel moved it by `delta`, held between 0 and
/// `limit`.
pub open spec fn wheel_offset(offset: nat, delta: int, limit: nat) -> nat {
    let moved = offset + delta;
    if moved <= 0 {
        0
    } else if moved >= limit {
        limit
    } else {
        moved as nat
    }
}

/// The largest offset that wheel scrolling reaches: what of `total` does
/// not fit into `visible`, and 0 where all of it fits.
pub open spec fn scroll_limit(total: nat, visible: nat) -> nat {
    if total >= visible {
        (total - visible) as nat
    } else {
        0
    }
}

/// The number of decimal digits of `n`.
pub open spec fn decimal_digits(n: nat) -> nat
    decreases n,
{
    if n < 10 {
        1
    } else {
        1 + decimal_digits(n / 10)
    }
}

/// The width of the line-number gutter for a document of `total_lines`
/// lines: the digits of the largest line number and one blank.
pub open spec fn gutter_width(total_lines: nat) -> nat {
    decimal_digits(if total_lines == 0 { 1 } else { total_lines }) + 1
}

/// See [`follow_offset`].
pub fn follow(offset: usize, pos: usize, extent: usize) -> (r: usize)
    ensures
        r == follow_offset(offset as nat, pos as nat, extent as nat),
        extent > 0 ==> r <= pos < r + extent,
{
    if extent == 0 {
        offset
    } else if pos < offset {
        pos
    } else if pos - offset >= extent {
        pos - extent + 1
    } else {
        offset
    }
}

/// See [`wheel_offset`].
pub fn wheel(offset: usize, delta: i16, limit: usize) -> (r: usize)
    ensures
        r == wheel_offset(offset as nat, delta as int, limit as nat),
        r <= limit,
{
    if delta < 0 {
        let back: usize = (-(delta as i32)) as usize;
        let moved: usize = if offset >= back { offset - back } else { 0 };
        if moved >= limit { limit } else { moved }
    } else {
        let fwd: usize = delta as usize;
        if offset >= limit || fwd >= limit - offset {
            limit
        } else {
            offset + fwd
        }
    }
}

/// See [`scroll_limit`].
pub fn max_scroll(total: usize, visible: usize) -> (r: usize)
    ensures
        r == scroll_limit(total as nat, visible as nat),
{
    if total >= visible {
        total - visible
    } else {
        0
    }
}

/// See [`gutter_width`].
pub fn line_number_width(total_lines: usize) -> (w: usize)
    ensures
        w == gutter_width(total_lines as nat),
        w >= 2,
{
    let total: usize = if total_lines == 0 { 1 } else { total_lines };
    let mut n: usize = total;
    let mut digits: usize = 1;
    while n >= 10
        invariant
            digits >= 1,
            n >= 1,
            2 * digits + n <= total + 2,
            decimal_digits(total as nat) == digits - 1 + decimal_digits(n as nat),
        decreases n,
    {
        n = n / 10;
        digits = digits + 1;
    }
    digits + 1
}

} // verus!
