//! Axis-aligned rectangles.

use vstd::prelude::*;

verus! {

/// An axis-aligned rectangle. Used both for capture cropping (in an image's pixel
/// space) and for selection geometry (in the global logical space), so `x`/`y` may
/// be negative; `w`/`h` are unsigned.
#[derive(Clone, Copy, Debug, PartialEq, Eq, Structural)]
pub struct Region {
    /// Left edge (may be negative in logical space).
    pub x: i32,
    /// Top edge (may be negative in logical space).
    pub y: i32,
    /// Width.
    pub w: u32,
    /// Height.
    pub h: u32,
}

/// The smaller of two integers.
pub open spec fn min_int(a: int, b: int) -> int {
    if a <= b {
        a
    } else {
        b
    }
}

/// The larger of two integers.
pub open spec fn max_int(a: int, b: int) -> int {
    if a >= b {
        a
    } else {
        b
    }
}

/// The smaller of two integers.
pub fn min_i64(a: i64, b: i64) -> (r: i64)
    ensures
        r == min_int(a as int, b as int),
{
    if a <= b {
        a
    } else {
        b
    }
}

/// The larger of two integers.
pub fn max_i64(a: i64, b: i64) -> (r: i64)
    ensures
        r == max_int(a as int, b as int),
{
    if a >= b {
        a
    } else {
        b
    }
}

impl Region {
    /// One past the right edge.
    pub open spec fn right(&self) -> int {
        self.x + self.w
    }

    /// One past the bottom edge.
    pub open spec fn bottom(&self) -> int {
        self.y + self.h
    }

    /// Whether the point `(px, py)` lies inside.
    pub open spec fn holds(&self, px: int, py: int) -> bool {
        self.x <= px < self.right() && self.y <= py < self.bottom()
    }

    /// The rectangle two regions share, if they share any point.
    pub open spec fn overlap(&self, o: &Region) -> Option<Region> {
        let x0 = max_int(self.x as int, o.x as int);
        let y0 = max_int(self.y as int, o.y as int);
        let x1 = min_int(self.right(), o.right());
        let y1 = min_int(self.bottom(), o.bottom());
        if x1 > x0 && y1 > y0 {
            Some(Region { x: x0 as i32, y: y0 as i32, w: (x1 - x0) as u32, h: (y1 - y0) as u32 })
        } else {
            None
        }
    }

    /// Whether the region has zero area (`w` or `h` is 0).
    pub fn is_empty(&self) -> (r: bool)
        ensures
            r == (self.w == 0 || self.h == 0),
    {
        self.w == 0 || self.h == 0
    }

    /// The overlapping rectangle of two regions, or `None` if they don't overlap.
    pub fn intersect(&self, o: &Region) -> (r: Option<Region>)
        ensures
            r == self.overlap(o),
    {
        let x0: i64 = max_i64(self.x as i64, o.x as i64);
        let y0: i64 = max_i64(self.y as i64, o.y as i64);
        let x1: i64 = min_i64(self.x as i64 + self.w as i64, o.x as i64 + o.w as i64);
        let y1: i64 = min_i64(self.y as i64 + self.h as i64, o.y as i64 + o.h as i64);
        if x1 > x0 && y1 > y0 {
            Some(Region { x: x0 as i32, y: y0 as i32, w: (x1 - x0) as u32, h: (y1 - y0) as u32 })
        } else {
            None
        }
    }
}

/// The overlap holds exactly the points both regions hold, and is `None` exactly when
/// there is no such point.
pub proof fn overlap_is_the_common_points(a: Region, b: Region)
    ensures
        match a.overlap(&b) {
            Some(r) => forall|px: int, py: int|
                #![trigger r.holds(px, py)]
                r.holds(px, py) <==> a.holds(px, py) && b.holds(px, py),
            None => forall|px: int, py: int|
                #![trigger a.holds(px, py)]
                !(a.holds(px, py) && b.holds(px, py)),
        },
{
}

/// Which region is asked makes no difference.
pub proof fn overlap_commutes(a: Region, b: Region)
    ensures
        a.overlap(&b) == b.overlap(&a),
{
}

/// Overlapping again with either region changes nothing.
pub proof fn overlap_is_stable(a: Region, b: Region)
    ensures
        a.overlap(&b) matches Some(r) ==> r.overlap(&a) == Some(r) && r.overlap(&b) == Some(r),
{
}

/// The overlap that is computed holds a point exactly where both regions do, and there is none
/// exactly where no point is in both.
pub proof fn an_intersection_holds_the_common_points(a: Region, b: Region, r: Option<Region>)
    requires
        call_ensures(Region::intersect, (&a, &b), r),
    ensures
        forall|px: int, py: int| #![trigger a.holds(px, py)]
            (r matches Some(o) && o.holds(px, py)) == (a.holds(px, py) && b.holds(px, py)),
{
}

/// A rectangle holds the points from its corner on, as many to the right as it is wide and as
/// many down as it is high, and has none where one of the two is nothing.
pub proof fn a_rectangle_holds_its_points(r: Region, dx: int, dy: int, empty: bool)
    requires
        call_ensures(Region::is_empty, (&r,), empty),
    ensures
        r.holds(r.x + dx, r.y + dy) <==> 0 <= dx < r.w && 0 <= dy < r.h,
        empty <==> !r.holds(r.x as int, r.y as int),
{
}

} // verus!
