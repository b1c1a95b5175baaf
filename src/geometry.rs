use vstd::prelude::*;

verus! {

/// Configuration units per normalized half-extent of the canvas. A coordinate
/// `v` below is measured in these steps: its normalized value is `v / 80`.
pub const SCALE: i64 = 80;

/// One corner of a drawable triangle, in steps of `1 / 80` of normalized space.
#[derive(Clone, Copy, Debug, PartialEq, Eq, Structural)]
pub struct Vertex {
    pub x: i64,
    pub y: i64,
}

/// An axis-aligned rectangle in steps of `1 / 80` of normalized space: its
/// corners are `(x, y)` and `(x + w, y + h)`.
#[derive(Clone, Copy, Debug, PartialEq, Eq, Structural)]
pub struct Rectangle {
    pub x: i64,
    pub y: i64,
    pub w: i64,
    pub h: i64,
}

/// The six corners of the two triangles that cover the rectangle with
/// corners `(x, y)` and `(x + w, y + h)`.
pub open spec fn quad(x: int, y: int, w: int, h: int) -> Seq<(int, int)> {
    seq![(x, y), (x + w, y), (x, y + h), (x + w, y), (x + w, y + h), (x, y + h)]
}

/// Whether a coordinate, in steps of `1 / 80`, lies in the normalized range `[-1, 1]`.
pub open spec fn in_range(v: int) -> bool {
    -SCALE <= v <= SCALE
}

impl Rectangle {
    /// Maps a rectangle given in configuration units (a canvas of 160 by 160)
    /// onto normalized space: `nx = x / 80 - 1`, `ny = y / 80 - 1`,
    /// `nw = w / 80`, `nh = h / 80`.
    pub fn new(x: i32, y: i32, w: i32, h: i32) -> (r: Rectangle)
        ensures
            r.x == x - SCALE,
            r.y == y - SCALE,
            r.w == w,
            r.h == h,
    {
        Rectangle { x: x as i64 - SCALE, y: y as i64 - SCALE, w: w as i64, h: h as i64 }
    }

    /// Whether the far corner can be computed without overflow.
    pub open spec fn representable(&self) -> bool {
        i64::MIN <= self.x + self.w <= i64::MAX && i64::MIN <= self.y + self.h <= i64::MAX
    }

    /// Whether both corners lie within the normalized range `[-1, 1]` on both axes.
    pub open spec fn within_canvas(&self) -> bool {
        in_range(self.x as int) && in_range(self.y as int) && in_range(self.x + self.w)
            && in_range(self.y + self.h)
    }

    /// Whether both corners lie within the normalized range on both axes.
    pub fn in_canvas(&self) -> (r: bool)
        ensures
            r == self.within_canvas(),
    {
        -SCALE <= self.x && self.x <= SCALE && -SCALE <= self.y && self.y <= SCALE
            && -SCALE - self.x <= self.w && self.w <= SCALE - self.x
            && -SCALE - self.y <= self.h && self.h <= SCALE - self.y
    }

    /// The two triangles `(x, y), (x + w, y), (x, y + h)` and
    /// `(x + w, y), (x + w, y + h), (x, y + h)` that cover the rectangle.
    pub fn vertices(&self) -> (r: Vec<Vertex>)
        requires
            self.representable(),
        ensures
            r@.len() == 6,
            forall|i: int|
                0 <= i < 6 ==> (r@[i].x as int, r@[i].y as int) == #[trigger] quad(
                    self.x as int,
                    self.y as int,
                    self.w as int,
                    self.h as int,
                )[i],
    {
        let x0 = self.x;
        let y0 = self.y;
        let x1 = self.x + self.w;
        let y1 = self.y + self.h;
        let r = vec![
            Vertex { x: x0, y: y0 },
            Vertex { x: x1, y: y0 },
            Vertex { x: x0, y: y1 },
            Vertex { x: x1, y: y0 },
            Vertex { x: x1, y: y1 },
            Vertex { x: x0, y: y1 },
        ];
        assert(r@.len() == 6);
        r
    }
}

} // verus!
