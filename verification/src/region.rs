//! Location / dimensions of pixels relative to a raster.
//!
//! A `Region` is a half-open rectangle `[x, x + width) x [y, y + height)`
//! with a signed origin and unsigned extent. A negative origin and a zero
//! extent are both legal; clipping, not validation, deals with them.
use vstd::prelude::*;

verus! {

/// Rectangle described by a signed origin plus an unsigned width and height.
#[derive(Clone, Copy, PartialEq, Eq, Structural, Debug)]
pub struct Region {
    /// Leftmost column.
    pub x: i32,
    /// Topmost row.
    pub y: i32,
    /// Number of columns.
    pub width: u32,
    /// Number of rows.
    pub height: u32,
}

/// Anything that stands for a `Region`: the type itself or a plain
/// `(x, y, width, height)` tuple.
pub trait IntoRegion: Sized {
    /// The region the value stands for.
    spec fn spec_region(self) -> Region;

    /// Turn the value into the region it stands for.
    fn into_region(self) -> (r: Region)
        ensures
            r == self.spec_region(),
    ;
}

impl IntoRegion for Region {
    open spec fn spec_region(self) -> Region {
        self
    }

    fn into_region(self) -> (r: Region) {
        self
    }
}

impl IntoRegion for (i32, i32, u32, u32) {
    open spec fn spec_region(self) -> Region {
        Region { x: self.0, y: self.1, width: self.2, height: self.3 }
    }

    fn into_region(self) -> (r: Region) {
        Region::new(self.0, self.1, self.2, self.3)
    }
}

impl Region {
    /// Column just right of the rectangle, saturated: when `x + width` would
    /// reach the maximum signed 32-bit value, the side is treated as already
    /// at `x`.
    pub open spec fn spec_right(self) -> int {
        if (self.x as int + self.width as int) < (i32::MAX as int) {
            self.x as int + self.width as int
        } else {
            self.x as int
        }
    }

    /// Row just below the rectangle, saturated like `spec_right`.
    pub open spec fn spec_bottom(self) -> int {
        if (self.y as int + self.height as int) < (i32::MAX as int) {
            self.y as int + self.height as int
        } else {
            self.y as int
        }
    }

    /// Intersection of two rectangles: origin is the componentwise maximum,
    /// the far sides the componentwise minimum, and a negative extent
    /// collapses to zero.
    pub open spec fn spec_intersection(self, other: Region) -> Region {
        let x0 = if self.x >= other.x { self.x as int } else { other.x as int };
        let x1 = if self.spec_right() <= other.spec_right() {
            self.spec_right()
        } else {
            other.spec_right()
        };
        let w = if x1 > x0 { x1 - x0 } else { 0 };
        let y0 = if self.y >= other.y { self.y as int } else { other.y as int };
        let y1 = if self.spec_bottom() <= other.spec_bottom() {
            self.spec_bottom()
        } else {
            other.spec_bottom()
        };
        let h = if y1 > y0 { y1 - y0 } else { 0 };
        Region { x: x0 as i32, y: y0 as i32, width: w as u32, height: h as u32 }
    }

    /// Create a new `Region`. Pure value construction: nothing is validated,
    /// so negative origins and zero extents pass through unchanged.
    pub fn new(x: i32, y: i32, width: u32, height: u32) -> (r: Region)
        ensures
            r == (Region { x, y, width, height }),
    {
        Region { x, y, width, height }
    }

    /// Get intersection with another `Region`.
    ///
    /// The result may have zero width or height when the rectangles do not
    /// overlap; that is a valid region, not an error.
    pub fn intersection<R: IntoRegion>(self, rhs: R) -> (r: Region)
        ensures
            r == self.spec_intersection(rhs.spec_region()),
    {
        let rhs = rhs.into_region();
        let x0: i32 = if self.x >= rhs.x {
            self.x
        } else {
            rhs.x
        };
        let sr = self.right();
        let rr = rhs.right();
        let x1: i32 = if sr <= rr {
            sr
        } else {
            rr
        };
        let w: u32 = if x1 > x0 {
            ((x1 as i64) - (x0 as i64)) as u32
        } else {
            0
        };
        let y0: i32 = if self.y >= rhs.y {
            self.y
        } else {
            rhs.y
        };
        let sb = self.bottom();
        let rb = rhs.bottom();
        let y1: i32 = if sb <= rb {
            sb
        } else {
            rb
        };
        let h: u32 = if y1 > y0 {
            ((y1 as i64) - (y0 as i64)) as u32
        } else {
            0
        };
        Region::new(x0, y0, w, h)
    }

    /// Get right side, saturated at the maximum signed 32-bit value.
    pub(crate) fn right(self) -> (r: i32)
        ensures
            r as int == self.spec_right(),
    {
        let x = (self.x as i64) + (self.width as i64);
        if x < (i32::MAX as i64) {
            x as i32
        } else {
            self.x
        }
    }

    /// Get bottom side, saturated at the maximum signed 32-bit value.
    pub(crate) fn bottom(self) -> (r: i32)
        ensures
            r as int == self.spec_bottom(),
    {
        let y = (self.y as i64) + (self.height as i64);
        if y < (i32::MAX as i64) {
            y as i32
        } else {
            self.y
        }
    }
}

/// Intersection is commutative: which rectangle clips which does not matter.
pub proof fn lemma_intersection_commutative(a: Region, b: Region)
    ensures
        a.spec_intersection(b) == b.spec_intersection(a),
{
}

/// Intersecting a rectangle with itself gives the rectangle back, for every
/// rectangle whose far sides do not saturate the signed 32-bit range.
pub proof fn lemma_intersection_self(a: Region)
    requires
        (a.x as int + a.width as int) < (i32::MAX as int),
        (a.y as int + a.height as int) < (i32::MAX as int),
    ensures
        a.spec_intersection(a) == a,
{
}

} // verus!
