use vstd::prelude::*;

use crate::game::split_int;

verus! {

/// The origin and size of a rectangle on a terminal screen.
#[derive(Debug, Clone, Copy, PartialEq, Eq, Structural)]
pub struct Rect {
    pub x0: u16,
    pub y0: u16,
    pub width: u16,
    pub height: u16,
}

impl Rect {
    /// Create a new Rect.
    pub fn new(x0: u16, y0: u16, width: u16, height: u16) -> (r: Rect)
        ensures
            r == (Rect { x0, y0, width, height }),
    {
        Rect { x0, y0, width, height }
    }

    /// The origin X, origin Y, width and height.
    pub fn shape(&self) -> (r: (u16, u16, u16, u16))
        ensures
            r == (self.x0, self.y0, self.width, self.height),
    {
        (self.x0, self.y0, self.width, self.height)
    }

    /// The origin X and Y and the opposite corner's X and Y.
    pub fn coords(&self) -> (r: (u16, u16, u16, u16))
        requires
            self.width >= 1,
            self.height >= 1,
            self.x0 + self.width - 1 <= u16::MAX,
            self.y0 + self.height - 1 <= u16::MAX,
        ensures
            r == (
                self.x0,
                self.y0,
                (self.x0 + self.width - 1) as u16,
                (self.y0 + self.height - 1) as u16,
            ),
    {
        (self.x0, self.y0, self.x0 + (self.width - 1), self.y0 + (self.height - 1))
    }

    /// Grow (or shrink, for negative deltas) around the center by half
    /// of `dx` and `dy` on each side.
    pub fn resized(&self, dx: i16, dy: i16) -> (r: Rect)
        requires
            self.width >= 1,
            self.height >= 1,
            self.x0 + self.width - 1 <= u16::MAX,
            self.y0 + self.height - 1 <= u16::MAX,
            0 < self.x0 - (dx as int) / 2,
            0 < self.y0 - (dy as int) / 2,
            self.x0 - (dx as int) / 2 < self.x0 + self.width - 1 + (dx as int) / 2,
            self.y0 - (dy as int) / 2 < self.y0 + self.height - 1 + (dy as int) / 2,
            self.x0 + self.width - 1 + (dx as int) / 2 <= u16::MAX,
            self.y0 + self.height - 1 + (dy as int) / 2 <= u16::MAX,
        ensures
            r.x0 == self.x0 - (dx as int) / 2,
            r.y0 == self.y0 - (dy as int) / 2,
            r.x0 + r.width - 1 == self.x0 + self.width - 1 + (dx as int) / 2,
            r.y0 + r.height - 1 == self.y0 + self.height - 1 + (dy as int) / 2,
    {
        let (hx, _) = split_int(dx as i64);
        let (hy, _) = split_int(dy as i64);
        let x0: i64 = self.x0 as i64 - hx;
        let y0: i64 = self.y0 as i64 - hy;
        let x1: i64 = self.x0 as i64 + self.width as i64 - 1 + hx;
        let y1: i64 = self.y0 as i64 + self.height as i64 - 1 + hy;
        Rect {
            x0: x0 as u16,
            y0: y0 as u16,
            width: (x1 - x0 + 1) as u16,
            height: (y1 - y0 + 1) as u16,
        }
    }
}

/// A fixed menu area with its padding and margin.
#[derive(Debug, Clone, Copy, PartialEq, Eq, Structural)]
pub struct Menu {
    pub rect: Rect,
    pub padding: u16,
    pub margin: u16,
}

impl Menu {
    pub fn new(rect: Rect, padding: u16, margin: u16) -> (r: Menu)
        ensures
            r == (Menu { rect, padding, margin }),
    {
        Menu { rect, padding, margin }
    }
}

/// The box-drawing symbols a terminal shell frames widgets with.
#[derive(Debug, Clone, Copy, PartialEq, Eq)]
pub enum Sym {
    BoxTopLeft,
    BoxTopRight,
    BoxBottomLeft,
    BoxBottomRight,
    BoxVertical,
    BoxHorizontal,
}

impl Sym {
    pub open spec fn glyph_spec(self) -> char {
        match self {
            Sym::BoxTopLeft => '\u{2554}',
            Sym::BoxTopRight => '\u{2557}',
            Sym::BoxBottomLeft => '\u{255a}',
            Sym::BoxBottomRight => '\u{255d}',
            Sym::BoxVertical => '\u{2551}',
            Sym::BoxHorizontal => '\u{2550}',
        }
    }

    /// The character this symbol draws as.
    pub fn glyph(&self) -> (c: char)
        ensures
            c == self.glyph_spec(),
    {
        match self {
            Sym::BoxTopLeft => '\u{2554}',
            Sym::BoxTopRight => '\u{2557}',
            Sym::BoxBottomLeft => '\u{255a}',
            Sym::BoxBottomRight => '\u{255d}',
            Sym::BoxVertical => '\u{2551}',
            Sym::BoxHorizontal => '\u{2550}',
        }
    }
}

} // verus!
