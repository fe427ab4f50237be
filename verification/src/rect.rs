//! Integer rectangles in global compositor space: left and top edges belong to
//! the rectangle, right and bottom edges do not.
use vstd::prelude::*;

verus! {

#[derive(Clone, Copy, Debug, PartialEq, Eq, Structural)]
pub struct Rect {
    pub x1: i32,
    pub y1: i32,
    pub x2: i32,
    pub y2: i32,
}

/// The nearest `i32` to a mathematical integer.
pub open spec fn saturate(v: int) -> i32 {
    if v > i32::MAX {
        i32::MAX
    } else if v < i32::MIN {
        i32::MIN
    } else {
        v as i32
    }
}

/// The nearest `i32` to `a + b`.
pub fn saturating_sum(a: i32, b: i32) -> (r: i32)
    ensures
        r == saturate(a + b),
{
    let s: i64 = a as i64 + b as i64;
    if s > 0x7fff_ffff {
        i32::MAX
    } else if s < -0x8000_0000 {
        i32::MIN
    } else {
        s as i32
    }
}

pub open spec fn smaller(a: i32, b: i32) -> i32 {
    if a <= b { a } else { b }
}

pub open spec fn larger(a: i32, b: i32) -> i32 {
    if a >= b { a } else { b }
}

impl Rect {
    /// Edges in order, and spans that fit in an `i32`.
    pub open spec fn wf(self) -> bool {
        &&& self.x1 <= self.x2
        &&& self.y1 <= self.y2
        &&& self.x2 - self.x1 <= i32::MAX
        &&& self.y2 - self.y1 <= i32::MAX
    }

    pub open spec fn empty_spec(self) -> bool {
        self.x1 >= self.x2 || self.y1 >= self.y2
    }

    pub open spec fn contains_spec(self, x: int, y: int) -> bool {
        self.x1 <= x < self.x2 && self.y1 <= y < self.y2
    }

    pub open spec fn sized_saturating_spec(x: i32, y: i32, w: i32, h: i32) -> Rect {
        Rect { x1: x, y1: y, x2: saturate(x + w), y2: saturate(y + h) }
    }

    pub open spec fn intersect_spec(self, o: Rect) -> Rect {
        Rect {
            x1: larger(self.x1, o.x1),
            y1: larger(self.y1, o.y1),
            x2: smaller(self.x2, o.x2),
            y2: smaller(self.y2, o.y2),
        }
    }

    /// A rectangle at `(x, y)` of the given size; `None` when the size is
    /// negative or the far corner does not fit.
    pub fn new_sized(x: i32, y: i32, w: i32, h: i32) -> (r: Option<Rect>)
        ensures
            r is Some <==> w >= 0 && h >= 0 && x + w <= i32::MAX && y + h <= i32::MAX,
            r is Some ==> r->0 == (Rect { x1: x, y1: y, x2: (x + w) as i32, y2: (y + h) as i32 }),
    {
        if w < 0 || h < 0 {
            return None;
        }
        match x.checked_add(w) {
            None => None,
            Some(x2) => match y.checked_add(h) {
                None => None,
                Some(y2) => Some(Rect { x1: x, y1: y, x2, y2 }),
            },
        }
    }

    /// A rectangle at `(x, y)` of the given size, far corner clamped to the range.
    pub fn new_sized_saturating(x: i32, y: i32, w: i32, h: i32) -> (r: Rect)
        ensures
            r == Rect::sized_saturating_spec(x, y, w, h),
    {
        Rect { x1: x, y1: y, x2: saturating_sum(x, w), y2: saturating_sum(y, h) }
    }

    pub fn width(&self) -> (r: i32)
        requires
            i32::MIN <= self.x2 - self.x1 <= i32::MAX,
        ensures
            r == self.x2 - self.x1,
    {
        self.x2 - self.x1
    }

    pub fn height(&self) -> (r: i32)
        requires
            i32::MIN <= self.y2 - self.y1 <= i32::MAX,
        ensures
            r == self.y2 - self.y1,
    {
        self.y2 - self.y1
    }

    pub fn is_empty(&self) -> (r: bool)
        ensures
            r == self.empty_spec(),
    {
        self.x1 >= self.x2 || self.y1 >= self.y2
    }

    pub fn contains(&self, x: i32, y: i32) -> (r: bool)
        ensures
            r == self.contains_spec(x as int, y as int),
    {
        x >= self.x1 && x < self.x2 && y >= self.y1 && y < self.y2
    }

    /// The common part; empty (edges crossed) when there is none.
    pub fn intersect(&self, o: Rect) -> (r: Rect)
        ensures
            r == self.intersect_spec(o),
    {
        Rect {
            x1: if self.x1 >= o.x1 { self.x1 } else { o.x1 },
            y1: if self.y1 >= o.y1 { self.y1 } else { o.y1 },
            x2: if self.x2 <= o.x2 { self.x2 } else { o.x2 },
            y2: if self.y2 <= o.y2 { self.y2 } else { o.y2 },
        }
    }
}

/// A point lies in the intersection exactly when it lies in both rectangles.
pub proof fn intersection_is_common_part(a: Rect, b: Rect, x: int, y: int)
    ensures
        a.intersect_spec(b).contains_spec(x, y) <==> a.contains_spec(x, y) && b.contains_spec(x, y),
{
}

} // verus!
