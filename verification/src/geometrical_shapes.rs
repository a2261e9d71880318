//! Value types for the drawable shapes, the pixel-sink interface, and the
//! line and circle rasterizers with their exact pixel-sequence contracts.

use crate::rounding::{
    div_round, div_round_i128, floor_sqrt, is_floor_sqrt, isqrt_i128, lemma_div_round_between,
    lemma_div_round_exact, lemma_div_round_props, lemma_floor_sqrt_def, lemma_floor_sqrt_is, lemma_sqrt_round_char,
    lemma_sqrt_round_le, lemma_sqrt_round_zero, sqrt_round, sqrt_round_i128,
};
use vstd::prelude::*;

verus! {

/// A pixel coordinate pair.  Any pair of machine integers is legal, including
/// coincident or degenerate configurations.
#[derive(Clone, Copy, Debug, PartialEq, Eq, Structural)]
pub struct Point {
    pub x: i32,
    pub y: i32,
}

impl View for Point {
    type V = (int, int);

    open spec fn view(&self) -> (int, int) {
        (self.x as int, self.y as int)
    }
}

/// A segment between two endpoints; degenerate (equal endpoints) lines are
/// legal and rasterize to a single pixel.
#[derive(Clone, Copy, Debug, PartialEq, Eq, Structural)]
pub struct Line(pub Point, pub Point);

/// Three corner points of a triangle outline.
#[derive(Clone, Copy, Debug, PartialEq, Eq, Structural)]
pub struct Triangle(pub Point, pub Point, pub Point);

/// Two opposite corner points of an axis-aligned rectangle outline.
#[derive(Clone, Copy, Debug, PartialEq, Eq, Structural)]
pub struct Rectangle(pub Point, pub Point);

/// A circle given by its center and integer radius.
#[derive(Clone, Copy, Debug, PartialEq, Eq, Structural)]
pub struct Circle {
    pub center: Point,
    pub radius: i32,
}

/// A color with four 8-bit channels.
#[derive(Clone, Copy, Debug, PartialEq, Eq, Structural)]
pub struct Color {
    pub r: u8,
    pub g: u8,
    pub b: u8,
    pub a: u8,
}

/// The external pixel sink: one operation, setting the pixel at `(x, y)` to a
/// color.  The sink's own policy decides what repeated writes mean; the
/// rasterizers promise nothing about it and merely hand their exactly
/// specified pixel sequences to it in order.
pub trait Displayable {
    fn display(&mut self, x: i32, y: i32, color: Color);
}

/// Relies on rand::random_range over `lo..=hi`: it returns a sample of the
/// inclusive range and panics only when the range is empty.
#[verifier::external_body]
pub(crate) fn rand_in_range(lo: i32, hi: i32) -> (r: i32)
    requires
        lo <= hi,
    ensures
        lo <= r <= hi,
{
    rand::random_range(lo..=hi)
}

/// A value representable as a pixel coordinate.
pub open spec fn fits_i32(v: int) -> bool {
    -0x8000_0000 <= v <= 0x7fff_ffff
}

/// Absolute value of a mathematical integer.
pub open spec fn iabs(a: int) -> int {
    if a < 0 {
        -a
    } else {
        a
    }
}

/// The larger of two mathematical integers.
pub open spec fn imax(a: int, b: int) -> int {
    if a < b {
        b
    } else {
        a
    }
}

/// A segment is steep when its vertical extent exceeds its horizontal one;
/// the rasterizer then iterates over `y` instead of `x`.
pub open spec fn steep(a: Point, b: Point) -> bool {
    iabs(b.y - a.y) > iabs(b.x - a.x)
}

/// Number of pixels the segment rasterizes to: one per unit step along the
/// dominant axis, endpoints included.
pub open spec fn line_len(a: Point, b: Point) -> int {
    1 + if steep(a, b) {
        iabs(b.y - a.y)
    } else {
        iabs(b.x - a.x)
    }
}

/// Pixel `i` of a scan from `(d0, e0)` to `(d1, e1)` with `d0 <= d1`, where
/// `d` is the dominant coordinate: the dominant coordinate advances by one
/// per pixel and the derived coordinate is the rounded linear interpolation
/// `round(e0 + (i / (d1 - d0)) * (e1 - e0))`.  A zero-extent scan yields the
/// single pixel `(d0, e0)`.
pub open spec fn scan_pix(d0: int, e0: int, d1: int, e1: int, i: int) -> (int, int)
    recommends
        d0 <= d1,
{
    if d1 == d0 {
        (d0, e0)
    } else {
        (d0 + i, div_round(e0 * (d1 - d0) + i * (e1 - e0), d1 - d0))
    }
}

/// Pixel `i` (as `(x, y)`) of the rasterized segment from `a` to `b`.  The
/// endpoints are normalized so that iteration always runs from the smaller to
/// the larger dominant coordinate, making the pixel sequence independent of
/// endpoint order.
pub open spec fn line_pix(a: Point, b: Point, i: int) -> (int, int) {
    if steep(a, b) {
        let p: (int, int) = if a.y > b.y {
            scan_pix(b.y as int, b.x as int, a.y as int, a.x as int, i)
        } else {
            scan_pix(a.y as int, a.x as int, b.y as int, b.x as int, i)
        };
        (p.1, p.0)
    } else {
        if a.x > b.x {
            scan_pix(b.x as int, b.y as int, a.x as int, a.y as int, i)
        } else {
            scan_pix(a.x as int, a.y as int, b.x as int, b.y as int, i)
        }
    }
}

/// The full pixel sequence of the segment from `a` to `b`.
pub open spec fn line_pixels(a: Point, b: Point) -> Seq<(int, int)> {
    Seq::new(line_len(a, b) as nat, |i: int| line_pix(a, b, i))
}

/// The mathematical pixel sequence a vector of points stands for.
pub open spec fn pixel_seq(s: Seq<Point>) -> Seq<(int, int)> {
    s.map_values(|p: Point| p@)
}

/// The circle can be rasterized without leaving the pixel coordinate space:
/// the radius is non-negative and the bounding box fits in `i32`.
pub open spec fn circle_wf(c: Circle) -> bool {
    &&& 0 <= c.radius
    &&& -0x8000_0000 <= c.center.x - c.radius
    &&& c.center.x + c.radius <= 0x7fff_ffff
    &&& -0x8000_0000 <= c.center.y - c.radius
    &&& c.center.y + c.radius <= 0x7fff_ffff
}

/// Scan steps stay within one octant and offsets within the radius.
pub proof fn lemma_circle_extent(r: int, s: int)
    requires
        0 <= r,
        0 <= s <= circle_steps(r),
    ensures
        s <= r,
        0 <= circle_off(r, s) <= r,
        0 <= s * s <= r * r,
{
    let rr: int = r * r;
    assert(rr >= 0) by (nonlinear_arith)
        requires
            r >= 0,
            rr == r * r,
    ;
    vstd::arithmetic::div_mod::lemma_fundamental_div_mod(rr, 2);
    assert(0 <= rr / 2 <= rr);
    lemma_floor_sqrt_def(rr / 2);
    let st: int = circle_steps(r);
    assert(st * st <= rr / 2);
    assert(st <= r) by (nonlinear_arith)
        requires
            st * st <= rr,
            0 <= st,
            0 <= r,
            rr == r * r,
    ;
    assert(s * s <= rr) by (nonlinear_arith)
        requires
            0 <= s <= r,
            rr == r * r,
    ;
    lemma_sqrt_round_le(rr - s * s, r);
}

/// Number of scan steps of the circle rasterizer: `floor(r / sqrt(2))`,
/// the horizontal extent of one octant.
pub open spec fn circle_steps(r: int) -> int {
    floor_sqrt(r * r / 2)
}

/// Vertical displacement paired with horizontal displacement `s` on a circle
/// of radius `r`: `round(sqrt(r*r - s*s))`.
pub open spec fn circle_off(r: int, s: int) -> int {
    sqrt_round(r * r - s * s)
}

/// Number of pixels the circle rasterizer emits: eight per scan step.
pub open spec fn circle_len(r: int) -> int {
    8 * (circle_steps(r) + 1)
}

/// Pixel `k` of the rasterized circle: scan step `s = k / 8` paired with its
/// offset `o` in each of the eight symmetric combinations, in the order the
/// rasterizer emits them.
pub open spec fn circle_pix(c: Point, r: int, k: int) -> (int, int) {
    let s: int = k / 8;
    let j: int = k % 8;
    let o: int = circle_off(r, s);
    if j == 0 {
        (c.x + s, c.y + o)
    } else if j == 1 {
        (c.x + s, c.y - o)
    } else if j == 2 {
        (c.x - s, c.y + o)
    } else if j == 3 {
        (c.x - s, c.y - o)
    } else if j == 4 {
        (c.x + o, c.y + s)
    } else if j == 5 {
        (c.x - o, c.y + s)
    } else if j == 6 {
        (c.x + o, c.y - s)
    } else {
        (c.x - o, c.y - s)
    }
}

/// The full pixel sequence of the circle with center `c` and radius `r`.
pub open spec fn circle_pixels(c: Point, r: int) -> Seq<(int, int)> {
    Seq::new(circle_len(r) as nat, |k: int| circle_pix(c, r, k))
}

impl Point {
    pub fn new(x: i32, y: i32) -> (p: Self)
        ensures
            p.x == x,
            p.y == y,
    {
        Self { x, y }
    }

    /// A point drawn uniformly from the box `[0, max_x] x [0, max_y]`.
    pub fn random(max_x: i32, max_y: i32) -> (p: Self)
        requires
            max_x >= 0,
            max_y >= 0,
        ensures
            0 <= p.x <= max_x,
            0 <= p.y <= max_y,
    {
        Point::new(rand_in_range(0, max_x), rand_in_range(0, max_y))
    }
}

impl Line {
    pub fn new(a: &Point, b: &Point) -> (l: Self)
        ensures
            l.0 == *a,
            l.1 == *b,
    {
        Self(a.clone(), b.clone())
    }

    pub fn random(max_x: i32, max_y: i32) -> (l: Self)
        requires
            max_x >= 0,
            max_y >= 0,
        ensures
            0 <= l.0.x <= max_x,
            0 <= l.0.y <= max_y,
            0 <= l.1.x <= max_x,
            0 <= l.1.y <= max_y,
    {
        Line::new(&Point::random(max_x, max_y), &Point::random(max_x, max_y))
    }

    /// Rasterize the segment: exactly the pixel sequence `line_pixels`, one
    /// pixel per unit step along the dominant axis, from the smaller to the
    /// larger dominant coordinate.
    #[verifier::loop_isolation(false)]
    pub fn pixels(&self) -> (out: Vec<Point>)
        ensures
            pixel_seq(out@) == line_pixels(self.0, self.1),
    {
        let a: Point = self.0;
        let b: Point = self.1;
        let dx: i64 = b.x as i64 - a.x as i64;
        let dy: i64 = b.y as i64 - a.y as i64;
        let adx: i64 = if dx < 0 {
            -dx
        } else {
            dx
        };
        let ady: i64 = if dy < 0 {
            -dy
        } else {
            dy
        };
        let is_steep: bool = ady > adx;
        let (d0, e0, d1, e1): (i32, i32, i32, i32) = if is_steep {
            if a.y > b.y {
                (b.y, b.x, a.y, a.x)
            } else {
                (a.y, a.x, b.y, b.x)
            }
        } else {
            if a.x > b.x {
                (b.x, b.y, a.x, a.y)
            } else {
                (a.x, a.y, b.x, b.y)
            }
        };
        let n: i64 = d1 as i64 - d0 as i64;
        assert(n + 1 == line_len(a, b));
        let mut out: Vec<Point> = Vec::new();
        let mut i: i64 = 0;
        while i <= n
            invariant
                0 <= i <= n + 1,
                out@.len() == i,
                forall|k: int| 0 <= k < i ==> (#[trigger] out@[k])@ == line_pix(a, b, k),
            decreases n + 1 - i,
        {
            let d: i64 = d0 as i64 + i;
            let e: i64 = if n == 0 {
                e0 as i64
            } else {
                proof {
                    lemma_div_round_between(e0 as int, e1 as int, n as int, i as int);
                    assert(-0x1_0000_0000_0000_0000 <= (e0 as int) * (n as int)
                        <= 0x1_0000_0000_0000_0000) by (nonlinear_arith)
                        requires
                            -0x8000_0000 <= e0 <= 0x7fff_ffff,
                            0 <= n <= 0xffff_ffff,
                    ;
                    assert(-0x1_0000_0000_0000_0000 <= (i as int) * ((e1 as int) - (e0 as int))
                        <= 0x1_0000_0000_0000_0000) by (nonlinear_arith)
                        requires
                            0 <= i <= 0xffff_ffff,
                            -0xffff_ffff <= e1 - e0 <= 0xffff_ffff,
                    ;
                }
                let num: i128 = (e0 as i128) * (n as i128) + (i as i128) * (e1 as i128 - e0
                    as i128);
                div_round_i128(num, n as i128) as i64
            };
            let p: Point = if is_steep {
                Point { x: e as i32, y: d as i32 }
            } else {
                Point { x: d as i32, y: e as i32 }
            };
            assert(p@ == line_pix(a, b, i as int));
            out.push(p);
            i = i + 1;
        }
        proof {
            assert(pixel_seq(out@) =~= line_pixels(self.0, self.1));
        }
        out
    }

    /// Draw the segment onto the sink in a single color, one `display` call
    /// per pixel of `line_pixels`, in order.
    pub fn draw_with_color<I: Displayable>(&self, image: &mut I, color: Color) {
        let pts: Vec<Point> = self.pixels();
        display_all(image, &pts, color);
    }
}

impl Triangle {
    pub fn new(a: &Point, b: &Point, c: &Point) -> (t: Self)
        ensures
            t.0 == *a,
            t.1 == *b,
            t.2 == *c,
    {
        Self(a.clone(), b.clone(), c.clone())
    }

    pub fn random(max_x: i32, max_y: i32) -> (t: Self)
        requires
            max_x >= 0,
            max_y >= 0,
        ensures
            0 <= t.0.x <= max_x && 0 <= t.0.y <= max_y,
            0 <= t.1.x <= max_x && 0 <= t.1.y <= max_y,
            0 <= t.2.x <= max_x && 0 <= t.2.y <= max_y,
    {
        Triangle::new(
            &Point::random(max_x, max_y),
            &Point::random(max_x, max_y),
            &Point::random(max_x, max_y),
        )
    }
}

impl Rectangle {
    pub fn new(a: &Point, b: &Point) -> (rc: Self)
        ensures
            rc.0 == *a,
            rc.1 == *b,
    {
        Self(a.clone(), b.clone())
    }

    pub fn random(max_x: i32, max_y: i32) -> (rc: Self)
        requires
            max_x >= 0,
            max_y >= 0,
        ensures
            0 <= rc.0.x <= max_x && 0 <= rc.0.y <= max_y,
            0 <= rc.1.x <= max_x && 0 <= rc.1.y <= max_y,
    {
        Rectangle::new(&Point::random(max_x, max_y), &Point::random(max_x, max_y))
    }
}

impl Circle {
    pub fn new(center: &Point, radius: i32) -> (c: Self)
        ensures
            c.center == *center,
            c.radius == radius,
    {
        Self { center: center.clone(), radius }
    }

    /// A circle with a random center in the box and a random radius between
    /// 40 and a third of the box extent.
    pub fn random(max_x: i32, max_y: i32) -> (c: Self)
        requires
            max_x >= 0,
            max_y >= 0,
            max_x + max_y <= 0x7fff_ffff,
            (max_x + max_y) / 3 >= 40,
        ensures
            0 <= c.center.x <= max_x,
            0 <= c.center.y <= max_y,
            40 <= c.radius <= (max_x + max_y) / 3,
    {
        Circle::new(&Point::random(max_x, max_y), rand_in_range(40, (max_x + max_y) / 3))
    }

    /// Rasterize the circle boundary: exactly the pixel sequence
    /// `circle_pixels`, eight symmetric pixels per scan step.
    #[verifier::loop_isolation(false)]
    pub fn pixels(&self) -> (out: Vec<Point>)
        requires
            circle_wf(*self),
        ensures
            pixel_seq(out@) == circle_pixels(self.center, self.radius as int),
    {
        let cx: i32 = self.center.x;
        let cy: i32 = self.center.y;
        let r: i32 = self.radius;
        proof {
            assert(0 <= (r as int) * (r as int) < 0x4000_0000_0000_0000) by (nonlinear_arith)
                requires
                    0 <= r <= 0x7fff_ffff,
            ;
        }
        let rr: i128 = (r as i128) * (r as i128);
        let steps: i128 = isqrt_i128(rr / 2);
        let mut out: Vec<Point> = Vec::new();
        let mut s: i128 = 0;
        while s <= steps
            invariant
                0 <= s <= steps + 1,
                out@.len() == 8 * s,
                forall|k: int|
                    0 <= k < 8 * s ==> (#[trigger] out@[k])@ == circle_pix(
                        self.center,
                        self.radius as int,
                        k,
                    ),
            decreases steps + 1 - s,
        {
            proof {
                lemma_circle_extent(r as int, s as int);
            }
            let o: i128 = sqrt_round_i128(rr - s * s);
            let x1: i32 = cx + s as i32;
            let x2: i32 = cx - s as i32;
            let y1: i32 = cy + s as i32;
            let y2: i32 = cy - s as i32;
            let xo1: i32 = cx + o as i32;
            let xo2: i32 = cx - o as i32;
            let yo1: i32 = cy + o as i32;
            let yo2: i32 = cy - o as i32;
            out.push(Point { x: x1, y: yo1 });
            out.push(Point { x: x1, y: yo2 });
            out.push(Point { x: x2, y: yo1 });
            out.push(Point { x: x2, y: yo2 });
            out.push(Point { x: xo1, y: y1 });
            out.push(Point { x: xo2, y: y1 });
            out.push(Point { x: xo1, y: y2 });
            out.push(Point { x: xo2, y: y2 });
            proof {
                let rd: int = self.radius as int;
                assert forall|k: int| 8 * s <= k < 8 * s + 8 implies (#[trigger] out@[k])@
                    == circle_pix(self.center, rd, k) by {
                    let j: int = k - 8 * (s as int);
                    vstd::arithmetic::div_mod::lemma_fundamental_div_mod_converse(
                        k,
                        8,
                        s as int,
                        j,
                    );
                    assert(k / 8 == s as int && k % 8 == j);
                }
            }
            s = s + 1;
        }
        proof {
            assert(pixel_seq(out@) =~= circle_pixels(self.center, self.radius as int));
        }
        out
    }

    /// Draw the circle boundary onto the sink in a single color, one
    /// `display` call per pixel of `circle_pixels`, in order.
    pub fn draw_with_color<I: Displayable>(&self, image: &mut I, color: Color)
        requires
            circle_wf(*self),
    {
        let pts: Vec<Point> = self.pixels();
        display_all(image, &pts, color);
    }
}

/// Hand every pixel of the list to the sink, in order, in one color.
pub fn display_all<I: Displayable>(image: &mut I, pts: &Vec<Point>, color: Color) {
    let mut idx: usize = 0;
    while idx < pts.len()
        decreases pts.len() - idx,
    {
        let p: Point = pts[idx];
        image.display(p.x, p.y, color);
        idx = idx + 1;
    }
}

/// The pixel sequence of the three edges of a triangle outline, in order.
pub open spec fn triangle_outline(t: Triangle) -> Seq<(int, int)> {
    line_pixels(t.0, t.1) + line_pixels(t.1, t.2) + line_pixels(t.2, t.0)
}

impl Triangle {
    /// Rasterize the outline: the three edge segments, concatenated.
    pub fn outline_pixels(&self) -> (out: Vec<Point>)
        ensures
            pixel_seq(out@) == triangle_outline(*self),
    {
        let mut out: Vec<Point> = Line::new(&self.0, &self.1).pixels();
        let mut e2: Vec<Point> = Line::new(&self.1, &self.2).pixels();
        let mut e3: Vec<Point> = Line::new(&self.2, &self.0).pixels();
        out.append(&mut e2);
        out.append(&mut e3);
        proof {
            assert(pixel_seq(out@) =~= triangle_outline(*self));
        }
        out
    }

    /// Draw the outline onto the sink, one `display` call per pixel of
    /// `triangle_outline`, in order.
    pub fn draw_with_color<I: Displayable>(&self, image: &mut I, color: Color) {
        Line::new(&self.0, &self.1).draw_with_color(image, color);
        Line::new(&self.1, &self.2).draw_with_color(image, color);
        Line::new(&self.2, &self.0).draw_with_color(image, color);
    }
}

/// The corner of the rectangle that shares `x` with the first and `y` with
/// the second given corner.
pub open spec fn rect_corner_b(rc: Rectangle) -> Point {
    Point { x: rc.0.x, y: rc.1.y }
}

/// The corner of the rectangle that shares `x` with the second and `y` with
/// the first given corner.
pub open spec fn rect_corner_d(rc: Rectangle) -> Point {
    Point { x: rc.1.x, y: rc.0.y }
}

/// The pixel sequence of the four edges of a rectangle outline, in order.
pub open spec fn rectangle_outline(rc: Rectangle) -> Seq<(int, int)> {
    line_pixels(rc.0, rect_corner_b(rc)) + line_pixels(rect_corner_b(rc), rc.1) + line_pixels(
        rc.1,
        rect_corner_d(rc),
    ) + line_pixels(rect_corner_d(rc), rc.0)
}

impl Rectangle {
    /// Rasterize the outline: the four axis-aligned edge segments between the
    /// two given corners and the two derived ones, concatenated.
    pub fn outline_pixels(&self) -> (out: Vec<Point>)
        ensures
            pixel_seq(out@) == rectangle_outline(*self),
    {
        let a: Point = self.0;
        let b: Point = Point::new(self.0.x, self.1.y);
        let c: Point = self.1;
        let d: Point = Point::new(self.1.x, self.0.y);
        let mut out: Vec<Point> = Line::new(&a, &b).pixels();
        let mut e2: Vec<Point> = Line::new(&b, &c).pixels();
        let mut e3: Vec<Point> = Line::new(&c, &d).pixels();
        let mut e4: Vec<Point> = Line::new(&d, &a).pixels();
        out.append(&mut e2);
        out.append(&mut e3);
        out.append(&mut e4);
        proof {
            assert(pixel_seq(out@) =~= rectangle_outline(*self));
        }
        out
    }

    /// Draw the outline onto the sink, one `display` call per pixel of
    /// `rectangle_outline`, in order.
    pub fn draw_with_color<I: Displayable>(&self, image: &mut I, color: Color) {
        let a: Point = self.0;
        let b: Point = Point::new(self.0.x, self.1.y);
        let c: Point = self.1;
        let d: Point = Point::new(self.1.x, self.0.y);
        Line::new(&a, &b).draw_with_color(image, color);
        Line::new(&b, &c).draw_with_color(image, color);
        Line::new(&c, &d).draw_with_color(image, color);
        Line::new(&d, &a).draw_with_color(image, color);
    }
}

/// A shape that can render itself onto a pixel sink.
pub trait Drawable {
    /// Inputs on which the shape can be rasterized without leaving the pixel
    /// coordinate space.
    spec fn wf(&self) -> bool;

    /// Render the shape: rasterize it and hand every pixel, with one color,
    /// to the sink.
    fn draw<I: Displayable>(&self, image: &mut I)
        requires
            self.wf(),
    ;

    /// A random fully opaque color.
    fn color(&self) -> (c: Color)
        ensures
            c.a == 255,
    {
        Color {
            r: rand_in_range(0, 255) as u8,
            g: rand_in_range(0, 255) as u8,
            b: rand_in_range(0, 255) as u8,
            a: 255,
        }
    }
}

/// First and last pixel of a scan are exactly its two endpoints.
proof fn lemma_scan_endpoints(d0: int, e0: int, d1: int, e1: int)
    requires
        d0 <= d1,
    ensures
        scan_pix(d0, e0, d1, e1, 0) == (d0, e0),
        d0 < d1 ==> scan_pix(d0, e0, d1, e1, d1 - d0) == (d1, e1),
{
    if d1 != d0 {
        let n: int = d1 - d0;
        lemma_div_round_exact(e0, n);
        assert(e0 * n + 0 * (e1 - e0) == e0 * n) by (nonlinear_arith);
        assert(e0 * n + n * (e1 - e0) == e1 * n) by (nonlinear_arith);
        lemma_div_round_exact(e1, n);
    }
}

/// The rasterized segment always has exactly `max(|dx|, |dy|) + 1` pixels.
pub proof fn lemma_line_pixel_count(a: Point, b: Point)
    ensures
        line_pixels(a, b).len() == 1 + imax(iabs(b.x - a.x), iabs(b.y - a.y)),
        line_pixels(a, b).len() >= 1,
{
}

/// Both endpoints appear in the rasterized segment: the pixel sequence starts
/// at the smaller dominant coordinate's endpoint and ends at the other one.
pub proof fn lemma_line_endpoints(a: Point, b: Point)
    ensures
        exists|i: int| 0 <= i < line_len(a, b) && line_pixels(a, b)[i] == a@,
        exists|i: int| 0 <= i < line_len(a, b) && line_pixels(a, b)[i] == b@,
{
    let n: int = line_len(a, b) - 1;
    if steep(a, b) {
        if a.y > b.y {
            lemma_scan_endpoints(b.y as int, b.x as int, a.y as int, a.x as int);
            assert(line_pixels(a, b)[0] == b@);
            assert(line_pixels(a, b)[n] == a@);
        } else {
            lemma_scan_endpoints(a.y as int, a.x as int, b.y as int, b.x as int);
            assert(line_pixels(a, b)[0] == a@);
            assert(line_pixels(a, b)[n] == b@);
        }
    } else {
        if a.x > b.x {
            lemma_scan_endpoints(b.x as int, b.y as int, a.x as int, a.y as int);
            assert(line_pixels(a, b)[0] == b@);
            assert(line_pixels(a, b)[n] == a@);
        } else {
            lemma_scan_endpoints(a.x as int, a.y as int, b.x as int, b.y as int);
            assert(line_pixels(a, b)[0] == a@);
            assert(line_pixels(a, b)[n] == b@);
        }
    }
}

/// Consecutive scan pixels advance the dominant coordinate by exactly one
/// and move the derived coordinate by at most one.
proof fn lemma_scan_adjacent(d0: int, e0: int, d1: int, e1: int, i: int)
    requires
        d0 < d1,
        iabs(e1 - e0) <= d1 - d0,
        0 <= i < d1 - d0,
    ensures
        scan_pix(d0, e0, d1, e1, i + 1).0 == scan_pix(d0, e0, d1, e1, i).0 + 1,
        iabs(scan_pix(d0, e0, d1, e1, i + 1).1 - scan_pix(d0, e0, d1, e1, i).1) <= 1,
{
    let n: int = d1 - d0;
    let de: int = e1 - e0;
    let ai: int = e0 * n + i * de;
    let aj: int = e0 * n + (i + 1) * de;
    assert(aj == ai + de) by (nonlinear_arith)
        requires
            ai == e0 * n + i * de,
            aj == e0 * n + (i + 1) * de,
    ;
    if de == n {
        assert(ai == (e0 + i) * n && aj == (e0 + i + 1) * n) by (nonlinear_arith)
            requires
                ai == e0 * n + i * de,
                aj == e0 * n + (i + 1) * de,
                de == n,
        ;
        lemma_div_round_exact(e0 + i, n);
        lemma_div_round_exact(e0 + i + 1, n);
    } else if de == -n {
        assert(ai == (e0 - i) * n && aj == (e0 - i - 1) * n) by (nonlinear_arith)
            requires
                ai == e0 * n + i * de,
                aj == e0 * n + (i + 1) * de,
                de == -n,
        ;
        lemma_div_round_exact(e0 - i, n);
        lemma_div_round_exact(e0 - i - 1, n);
    } else {
        let ri: int = div_round(ai, n);
        let rj: int = div_round(aj, n);
        lemma_div_round_props(ai, n);
        lemma_div_round_props(aj, n);
        assert(ri - 1 <= rj <= ri + 1) by (nonlinear_arith)
            requires
                n > 0,
                aj == ai + de,
                -n < de < n,
                2 * ai - n <= 2 * n * ri <= 2 * ai + n,
                2 * aj - n <= 2 * n * rj <= 2 * aj + n,
        ;
    }
}

/// The rasterized segment has no gaps: from each pixel to the next, the
/// dominant coordinate advances by exactly one and the other coordinate moves
/// by at most one.
pub proof fn lemma_line_no_gaps(a: Point, b: Point, i: int)
    requires
        0 <= i,
        i + 1 < line_len(a, b),
    ensures
        ({
            let p: (int, int) = line_pix(a, b, i);
            let q: (int, int) = line_pix(a, b, i + 1);
            if steep(a, b) {
                q.1 == p.1 + 1 && iabs(q.0 - p.0) <= 1
            } else {
                q.0 == p.0 + 1 && iabs(q.1 - p.1) <= 1
            }
        }),
{
    if steep(a, b) {
        if a.y > b.y {
            lemma_scan_adjacent(b.y as int, b.x as int, a.y as int, a.x as int, i);
        } else {
            lemma_scan_adjacent(a.y as int, a.x as int, b.y as int, b.x as int, i);
        }
    } else {
        if a.x > b.x {
            lemma_scan_adjacent(b.x as int, b.y as int, a.x as int, a.y as int, i);
        } else {
            lemma_scan_adjacent(a.x as int, a.y as int, b.x as int, b.y as int, i);
        }
    }
}

/// Rasterizing a segment is independent of endpoint order: the two pixel
/// sequences are identical, pixel for pixel.
pub proof fn lemma_line_reverse(a: Point, b: Point)
    ensures
        line_pixels(a, b) == line_pixels(b, a),
{
    assert(line_len(a, b) == line_len(b, a));
    assert forall|i: int| 0 <= i < line_len(a, b) implies line_pixels(a, b)[i] == line_pixels(
        b,
        a,
    )[i] by {
        assert(line_pix(a, b, i) == line_pix(b, a, i));
    }
    assert(line_pixels(a, b) =~= line_pixels(b, a));
}

/// The line rasterizer is deterministic: any two pixel vectors that meet the
/// contract of `Line::pixels` for the same segment are pixel-for-pixel equal.
pub proof fn lemma_line_rasterization_deterministic(l: Line, p1: Seq<Point>, p2: Seq<Point>)
    requires
        pixel_seq(p1) == line_pixels(l.0, l.1),
        pixel_seq(p2) == line_pixels(l.0, l.1),
    ensures
        pixel_seq(p1) == pixel_seq(p2),
{
}

/// The circle rasterizer is deterministic in the same sense.
pub proof fn lemma_circle_rasterization_deterministic(c: Circle, p1: Seq<Point>, p2: Seq<Point>)
    requires
        pixel_seq(p1) == circle_pixels(c.center, c.radius as int),
        pixel_seq(p2) == circle_pixels(c.center, c.radius as int),
    ensures
        pixel_seq(p1) == pixel_seq(p2),
{
}

/// Scan step and symmetry slot of a circle pixel index.
proof fn lemma_circle_index(r: int, k: int)
    requires
        0 <= r,
        0 <= k < circle_len(r),
    ensures
        0 <= k % 8 < 8,
        k / 8 == (k - k % 8) / 8,
        0 <= k / 8 <= circle_steps(r),
        k == 8 * (k / 8) + k % 8,
{
    vstd::arithmetic::div_mod::lemma_fundamental_div_mod(k, 8);
    assert(0 <= k % 8 < 8);
    vstd::arithmetic::div_mod::lemma_fundamental_div_mod(k - k % 8, 8);
    lemma_floor_sqrt_def(r * r / 2);
}

/// The squared distance of scan step `s` and its offset lands within one unit
/// of the radius once rounded back through the square root.
proof fn lemma_ring_distance(r: int, s: int)
    requires
        0 <= r,
        0 <= s <= circle_steps(r),
    ensures
        iabs(sqrt_round(s * s + circle_off(r, s) * circle_off(r, s)) - r) <= 1,
{
    lemma_circle_extent(r, s);
    let o: int = circle_off(r, s);
    let n: int = r * r - s * s;
    let m: int = s * s + o * o;
    if n == 0 {
        lemma_sqrt_round_zero();
        assert(o == 0);
        assert(is_floor_sqrt(r * r, r)) by (nonlinear_arith)
            requires
                r >= 0,
        ;
        lemma_floor_sqrt_is(r * r, r);
        assert(m == r * r);
        assert(sqrt_round(m) == r);
    } else {
        lemma_sqrt_round_char(n);
        assert(r >= 1) by (nonlinear_arith)
            requires
                r * r - s * s >= 1,
                0 <= s,
                0 <= r,
        ;
        assert(m >= 1) by (nonlinear_arith)
            requires
                m == s * s + o * o,
                o >= 1,
                0 <= s,
        ;
        assert(r * r - r <= m <= r * r + r - 1) by (nonlinear_arith)
            requires
                m == s * s + o * o,
                n == r * r - s * s,
                o * o - o < n <= o * o + o,
                1 <= o <= r,
        ;
        lemma_sqrt_round_char(m);
        let q: int = sqrt_round(m);
        assert(r - 1 <= q <= r) by (nonlinear_arith)
            requires
                q * q - q < m <= q * q + q,
                r * r - r <= m <= r * r + r - 1,
                q >= 1,
                r >= 1,
        ;
    }
}

/// Every pixel of the rasterized circle lies, after rounding, within one unit
/// of the circle's radius.
pub proof fn lemma_circle_pixel_on_ring(c: Point, r: int, k: int)
    requires
        0 <= r,
        0 <= k < circle_len(r),
    ensures
        ({
            let p: (int, int) = circle_pix(c, r, k);
            iabs(sqrt_round((p.0 - c.x) * (p.0 - c.x) + (p.1 - c.y) * (p.1 - c.y)) - r) <= 1
        }),
{
    lemma_circle_index(r, k);
    let s: int = k / 8;
    let o: int = circle_off(r, s);
    lemma_ring_distance(r, s);
    let p: (int, int) = circle_pix(c, r, k);
    assert((p.0 - c.x) * (p.0 - c.x) + (p.1 - c.y) * (p.1 - c.y) == s * s + o * o)
        by (nonlinear_arith)
        requires
            (p.0 - c.x == s || p.0 - c.x == -s || p.0 - c.x == o || p.0 - c.x == -o) && (p.1 - c.y
                == s || p.1 - c.y == -s || p.1 - c.y == o || p.1 - c.y == -o) && ((p.0 - c.x == s
                || p.0 - c.x == -s) <==> (p.1 - c.y == o || p.1 - c.y == -o)),
    ;
}

/// Every pixel of the rasterized circle stays within the square of side
/// `2 * r` around the center.
pub proof fn lemma_circle_pixel_bounds(c: Point, r: int, k: int)
    requires
        0 <= r,
        0 <= k < circle_len(r),
    ensures
        ({
            let p: (int, int) = circle_pix(c, r, k);
            c.x - r <= p.0 <= c.x + r && c.y - r <= p.1 <= c.y + r
        }),
{
    lemma_circle_index(r, k);
    lemma_circle_extent(r, k / 8);
}

/// A circle of radius zero rasterizes to the center pixel alone.
pub proof fn lemma_circle_radius_zero(c: Point, k: int)
    requires
        0 <= k < circle_len(0),
    ensures
        circle_len(0) == 8,
        circle_pix(c, 0, k) == c@,
{
    lemma_floor_sqrt_is(0, 0);
    lemma_sqrt_round_zero();
    lemma_circle_index(0, k);
}

/// The rasterized circle is symmetric under reflection through either axis of
/// its center: each pixel's mirror image is also emitted.
pub proof fn lemma_circle_symmetry(c: Point, r: int, k: int)
    requires
        0 <= r,
        0 <= k < circle_len(r),
    ensures
        exists|k2: int|
            0 <= k2 < circle_len(r) && (#[trigger] circle_pix(c, r, k2)).0 == 2 * c.x - circle_pix(
                c,
                r,
                k,
            ).0 && circle_pix(c, r, k2).1 == circle_pix(c, r, k).1,
        exists|k3: int|
            0 <= k3 < circle_len(r) && (#[trigger] circle_pix(c, r, k3)).0 == circle_pix(c, r, k).0
                && circle_pix(c, r, k3).1 == 2 * c.y - circle_pix(c, r, k).1,
{
    lemma_circle_index(r, k);
    let s: int = k / 8;
    let j: int = k % 8;
    let jx: int = if j == 0 {
        2
    } else if j == 1 {
        3
    } else if j == 2 {
        0
    } else if j == 3 {
        1
    } else if j == 4 {
        5
    } else if j == 5 {
        4
    } else if j == 6 {
        7
    } else {
        6
    };
    let jy: int = if j == 0 {
        1
    } else if j == 1 {
        0
    } else if j == 2 {
        3
    } else if j == 3 {
        2
    } else if j == 4 {
        6
    } else if j == 5 {
        7
    } else if j == 6 {
        4
    } else {
        5
    };
    let k2: int = 8 * s + jx;
    let k3: int = 8 * s + jy;
    vstd::arithmetic::div_mod::lemma_fundamental_div_mod_converse(k2, 8, s, jx);
    vstd::arithmetic::div_mod::lemma_fundamental_div_mod_converse(k3, 8, s, jy);
    assert(0 <= k2 < circle_len(r) && circle_pix(c, r, k2).0 == 2 * c.x - circle_pix(c, r, k).0
        && circle_pix(c, r, k2).1 == circle_pix(c, r, k).1);
    assert(0 <= k3 < circle_len(r) && circle_pix(c, r, k3).0 == circle_pix(c, r, k).0 && circle_pix(
        c,
        r,
        k3,
    ).1 == 2 * c.y - circle_pix(c, r, k).1);
}

impl Drawable for Point {
    open spec fn wf(&self) -> bool {
        true
    }

    fn draw<I: Displayable>(&self, image: &mut I) {
        let c: Color = self.color();
        image.display(self.x, self.y, c);
    }
}

impl Drawable for Line {
    open spec fn wf(&self) -> bool {
        true
    }

    fn draw<I: Displayable>(&self, image: &mut I) {
        let c: Color = self.color();
        self.draw_with_color(image, c);
    }
}

impl Drawable for Triangle {
    open spec fn wf(&self) -> bool {
        true
    }

    fn draw<I: Displayable>(&self, image: &mut I) {
        let c: Color = self.color();
        self.draw_with_color(image, c);
    }
}

impl Drawable for Rectangle {
    open spec fn wf(&self) -> bool {
        true
    }

    fn draw<I: Displayable>(&self, image: &mut I) {
        let c: Color = self.color();
        self.draw_with_color(image, c);
    }
}

impl Drawable for Circle {
    open spec fn wf(&self) -> bool {
        circle_wf(*self)
    }

    fn draw<I: Displayable>(&self, image: &mut I) {
        let c: Color = self.color();
        self.draw_with_color(image, c);
    }
}

} // verus!

