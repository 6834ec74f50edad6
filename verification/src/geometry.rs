use vstd::prelude::*;

verus! {

/// A point in logical or physical pixel coordinates.
#[derive(Clone, Copy, Debug, PartialEq, Eq, Structural)]
pub struct Point {
    pub x: i32,
    pub y: i32,
}

/// A width and a height.
#[derive(Clone, Copy, Debug, PartialEq, Eq, Structural)]
pub struct Size {
    pub w: i32,
    pub h: i32,
}

/// A rectangle given by its top-left corner and its size.
#[derive(Clone, Copy, Debug, PartialEq, Eq, Structural)]
pub struct Rect {
    pub loc: Point,
    pub size: Size,
}

/// `a + b`, saturated to the range of `i32`.
pub open spec fn sat_add(a: int, b: int) -> int {
    if a + b > i32::MAX {
        i32::MAX as int
    } else if a + b < i32::MIN {
        i32::MIN as int
    } else {
        a + b
    }
}

/// Whether `a + b` fits in an `i32`.
pub open spec fn fits_i32(v: int) -> bool {
    i32::MIN <= v <= i32::MAX
}

/// Saturating addition of two `i32`.
pub fn saturating_add_i32(a: i32, b: i32) -> (r: i32)
    ensures
        r == sat_add(a as int, b as int),
{
    let s: i64 = a as i64 + b as i64;
    if s > i32::MAX as i64 {
        i32::MAX
    } else if s < i32::MIN as i64 {
        i32::MIN
    } else {
        s as i32
    }
}

impl Point {
    /// The point `(x, y)`.
    pub fn new(x: i32, y: i32) -> (p: Point)
        ensures
            p.x == x,
            p.y == y,
    {
        Point { x, y }
    }
}

impl Size {
    /// The size `w` by `h`.
    pub fn new(w: i32, h: i32) -> (s: Size)
        ensures
            s.w == w,
            s.h == h,
    {
        Size { w, h }
    }
}

impl Rect {
    /// Right edge (exclusive), saturated.
    pub open spec fn right(self) -> int {
        sat_add(self.loc.x as int, self.size.w as int)
    }

    /// Bottom edge (exclusive), saturated.
    pub open spec fn bottom(self) -> int {
        sat_add(self.loc.y as int, self.size.h as int)
    }

    /// Whether the point lies inside the rectangle: the left and top edges
    /// are included, the right and bottom ones are not.
    pub open spec fn spec_contains(self, p: Point) -> bool {
        &&& p.x >= self.loc.x
        &&& p.x < self.right()
        &&& p.y >= self.loc.y
        &&& p.y < self.bottom()
    }

    /// Whether the two rectangles share an area (touching is not enough).
    pub open spec fn spec_overlaps(self, other: Rect) -> bool {
        &&& self.loc.x < other.right()
        &&& other.loc.x < self.right()
        &&& self.loc.y < other.bottom()
        &&& other.loc.y < self.bottom()
    }

    /// The rectangle spanned by two corners.
    pub open spec fn from_corners(left: int, top: int, right: int, bottom: int) -> Rect {
        Rect {
            loc: Point { x: left as i32, y: top as i32 },
            size: Size { w: (right - left) as i32, h: (bottom - top) as i32 },
        }
    }

    /// The overlapping area of two rectangles, or `None` where they do not
    /// overlap.
    pub open spec fn spec_intersection(self, other: Rect) -> Option<Rect> {
        if !self.spec_overlaps(other) {
            None
        } else {
            Some(
                Rect::from_corners(
                    if self.loc.x >= other.loc.x { self.loc.x as int } else { other.loc.x as int },
                    if self.loc.y >= other.loc.y { self.loc.y as int } else { other.loc.y as int },
                    if self.right() <= other.right() { self.right() } else { other.right() },
                    if self.bottom() <= other.bottom() { self.bottom() } else { other.bottom() },
                ),
            )
        }
    }

    /// The rectangle at `loc` with size `size`.
    pub fn from_loc_and_size(loc: Point, size: Size) -> (r: Rect)
        ensures
            r.loc == loc,
            r.size == size,
    {
        Rect { loc, size }
    }

    /// Whether `p` lies inside the rectangle.
    pub fn contains(&self, p: Point) -> (b: bool)
        ensures
            b == self.spec_contains(p),
    {
        let right = saturating_add_i32(self.loc.x, self.size.w);
        let bottom = saturating_add_i32(self.loc.y, self.size.h);
        p.x >= self.loc.x && p.x < right && p.y >= self.loc.y && p.y < bottom
    }

    /// Whether the two rectangles overlap.
    pub fn overlaps(&self, other: &Rect) -> (b: bool)
        ensures
            b == self.spec_overlaps(*other),
    {
        let r1 = saturating_add_i32(self.loc.x, self.size.w);
        let b1 = saturating_add_i32(self.loc.y, self.size.h);
        let r2 = saturating_add_i32(other.loc.x, other.size.w);
        let b2 = saturating_add_i32(other.loc.y, other.size.h);
        self.loc.x < r2 && other.loc.x < r1 && self.loc.y < b2 && other.loc.y < b1
    }

    /// The overlapping area of the two rectangles.
    pub fn intersection(&self, other: &Rect) -> (r: Option<Rect>)
        ensures
            r == self.spec_intersection(*other),
    {
        if !self.overlaps(other) {
            return None;
        }
        let r1 = saturating_add_i32(self.loc.x, self.size.w);
        let b1 = saturating_add_i32(self.loc.y, self.size.h);
        let r2 = saturating_add_i32(other.loc.x, other.size.w);
        let b2 = saturating_add_i32(other.loc.y, other.size.h);
        let left = if self.loc.x >= other.loc.x { self.loc.x } else { other.loc.x };
        let top = if self.loc.y >= other.loc.y { self.loc.y } else { other.loc.y };
        let right = if r1 <= r2 { r1 } else { r2 };
        let bottom = if b1 <= b2 { b1 } else { b2 };
        Some(Rect { loc: Point { x: left, y: top }, size: Size { w: right - left, h: bottom - top } })
    }
}

} // verus!
