//! Rectangles, points and the per-axis distance by which faces are ranked.

use vstd::prelude::*;

verus! {

/// A point in pixel coordinates.
#[derive(Clone, Copy, Debug, PartialEq, Eq, Structural)]
pub struct Point {
    pub x: i64,
    pub y: i64,
}

/// An axis-aligned rectangle: top-left corner and extent, in pixels.
#[derive(Clone, Copy, Debug, PartialEq, Eq, Structural)]
pub struct Rect {
    pub x: i32,
    pub y: i32,
    pub width: i32,
    pub height: i32,
}

/// Absolute differences along each axis. Ordered by `dx` first, then `dy`.
#[derive(Clone, Copy, Debug, PartialEq, Eq, Structural)]
pub struct AxisDistance {
    pub dx: u64,
    pub dy: u64,
}

/// Half of `n`, rounded toward zero.
pub open spec fn half_toward_zero(n: int) -> int {
    if n >= 0 {
        n / 2
    } else {
        -((-n) / 2)
    }
}

/// The absolute value of `a - b`.
pub open spec fn abs_difference(a: int, b: int) -> int {
    if a >= b {
        a - b
    } else {
        b - a
    }
}

impl AxisDistance {
    /// Strict lexicographic order: horizontal distance decides, the vertical
    /// one breaks ties.
    pub open spec fn less_than(self, other: AxisDistance) -> bool {
        self.dx < other.dx || (self.dx == other.dx && self.dy < other.dy)
    }

    /// Whether `self` is strictly smaller than `other` in the lexicographic
    /// order on (horizontal, vertical).
    pub fn is_less_than(&self, other: &AxisDistance) -> (r: bool)
        ensures
            r == self.less_than(*other),
    {
        self.dx < other.dx || (self.dx == other.dx && self.dy < other.dy)
    }

    /// Whether both components are zero.
    pub fn is_zero(&self) -> (r: bool)
        ensures
            r == (self.dx == 0 && self.dy == 0),
    {
        self.dx == 0 && self.dy == 0
    }
}

impl Point {
    pub fn new(x: i64, y: i64) -> (p: Point)
        ensures
            p == (Point { x, y }),
    {
        Point { x, y }
    }
}

impl Rect {
    pub fn new(x: i32, y: i32, width: i32, height: i32) -> (r: Rect)
        ensures
            r == (Rect { x, y, width, height }),
    {
        Rect { x, y, width, height }
    }

    /// A detection counts only when it lies strictly inside the top and left
    /// frame edges; one touching them is taken for a detector artefact.
    pub open spec fn valid_detection(self) -> bool {
        self.x > 0 && self.y > 0
    }

    /// Horizontal coordinate of the midpoint of the top-left and bottom-right
    /// corners.
    pub open spec fn center_x(self) -> int {
        half_toward_zero(self.x + (self.x + self.width))
    }

    /// Vertical coordinate of the midpoint of the top-left and bottom-right
    /// corners.
    pub open spec fn center_y(self) -> int {
        half_toward_zero(self.y + (self.y + self.height))
    }

    /// Per-axis absolute difference between the rectangle's centre and `p`.
    pub open spec fn distance_to(self, p: Point) -> AxisDistance {
        AxisDistance {
            dx: abs_difference(self.center_x(), p.x as int) as u64,
            dy: abs_difference(self.center_y(), p.y as int) as u64,
        }
    }

    /// Whether `self` is strictly nearer to `p` than `other` is.
    pub open spec fn nearer_than(self, other: Rect, p: Point) -> bool {
        self.distance_to(p).less_than(other.distance_to(p))
    }

    pub fn is_valid_detection(&self) -> (r: bool)
        ensures
            r == self.valid_detection(),
    {
        self.x > 0 && self.y > 0
    }

    /// The top-left corner.
    pub fn tl(&self) -> (p: Point)
        ensures
            p.x == self.x,
            p.y == self.y,
    {
        Point { x: self.x as i64, y: self.y as i64 }
    }

    /// The bottom-right corner (exclusive).
    pub fn br(&self) -> (p: Point)
        ensures
            p.x == self.x + self.width,
            p.y == self.y + self.height,
    {
        Point { x: self.x as i64 + self.width as i64, y: self.y as i64 + self.height as i64 }
    }

    /// The midpoint of the two corners, each coordinate halved toward zero.
    pub fn center(&self) -> (p: Point)
        ensures
            p.x == self.center_x(),
            p.y == self.center_y(),
    {
        let tl = self.tl();
        let br = self.br();
        Point { x: (tl.x + br.x) / 2, y: (tl.y + br.y) / 2 }
    }

    /// The per-axis distance from the rectangle's centre to `p`.
    pub fn distance(&self, p: &Point) -> (d: AxisDistance)
        ensures
            d == self.distance_to(*p),
            d.dx == abs_difference(self.center_x(), p.x as int),
            d.dy == abs_difference(self.center_y(), p.y as int),
    {
        let c = self.center();
        AxisDistance { dx: axis_gap(c.x, p.x), dy: axis_gap(c.y, p.y) }
    }
}

/// `|a - b|`, which always fits in `u64`.
pub fn axis_gap(a: i64, b: i64) -> (d: u64)
    ensures
        d == abs_difference(a as int, b as int),
{
    if a >= b {
        (a as i128 - b as i128) as u64
    } else {
        (b as i128 - a as i128) as u64
    }
}

/// The centre of a frame of `cols` by `rows` pixels: half of each side,
/// rounded toward zero.
pub open spec fn frame_center(cols: i32, rows: i32) -> Point {
    Point { x: half_toward_zero(cols as int) as i64, y: half_toward_zero(rows as int) as i64 }
}

/// The centre of a frame of `cols` by `rows` pixels.
pub fn find_center_of_frame(cols: i32, rows: i32) -> (p: Point)
    ensures
        p == frame_center(cols, rows),
        p.x == half_toward_zero(cols as int),
        p.y == half_toward_zero(rows as int),
{
    Point { x: (cols / 2) as i64, y: (rows / 2) as i64 }
}

} // verus!
