use vstd::prelude::*;

verus! {

/// A position in logical screen units.
#[derive(Clone, Copy, Debug, PartialEq, Eq, Structural)]
pub struct Point {
    pub x: i32,
    pub y: i32,
}

/// A width and a height in logical screen units.
#[derive(Clone, Copy, Debug, PartialEq, Eq, Structural)]
pub struct Size {
    pub w: i32,
    pub h: i32,
}

/// An axis-aligned rectangle: its top-left corner and its size.
#[derive(Clone, Copy, Debug, PartialEq, Eq, Structural)]
pub struct Rect {
    pub loc: Point,
    pub size: Size,
}

/// Half-open containment: the left and top edges belong to the rectangle,
/// the right and bottom edges do not.
pub open spec fn in_rect(x: int, y: int, w: int, h: int, px: int, py: int) -> bool {
    x <= px < x + w && y <= py < y + h
}

impl Point {
    pub fn new(x: i32, y: i32) -> (r: Point)
        ensures
            r.x == x,
            r.y == y,
    {
        Point { x, y }
    }
}

impl Size {
    pub fn new(w: i32, h: i32) -> (r: Size)
        ensures
            r.w == w,
            r.h == h,
    {
        Size { w, h }
    }
}

impl Rect {
    pub open spec fn new_spec(x: i32, y: i32, w: i32, h: i32) -> Rect {
        Rect { loc: Point { x, y }, size: Size { w, h } }
    }

    pub open spec fn contains_spec(self, p: Point) -> bool {
        in_rect(self.loc.x as int, self.loc.y as int, self.size.w as int, self.size.h as int, p.x as int, p.y as int)
    }

    pub fn new(x: i32, y: i32, w: i32, h: i32) -> (r: Rect)
        ensures
            r.loc.x == x,
            r.loc.y == y,
            r.size.w == w,
            r.size.h == h,
    {
        Rect { loc: Point { x, y }, size: Size { w, h } }
    }

    /// Whether `p` lies inside the rectangle (half-open on the right and bottom).
    pub fn contains(&self, p: Point) -> (r: bool)
        ensures
            r == self.contains_spec(p),
    {
        let px = p.x as i64;
        let py = p.y as i64;
        let x0 = self.loc.x as i64;
        let y0 = self.loc.y as i64;
        x0 <= px && px < x0 + self.size.w as i64 && y0 <= py && py < y0 + self.size.h as i64
    }
}

} // verus!
