//! The pseudo-3D cube skeleton: three free-hand corner points are completed
//! into a parallelogram front face, and a translated copy of that face forms
//! the back face.  The depth offset is solved by the caller from the front
//! face's diagonals (a transcendental heuristic); everything that is exact
//! integer geometry — the fourth corner, diagonal lengths, the rounded
//! midpoint, the orthogonal projection, the assembly and the twelve-edge
//! outline — lives here with exact contracts.

use crate::geometrical_shapes::{
    fits_i32, line_pixels, pixel_seq, Color, Displayable, Drawable, Line, Point,
};
use crate::rounding::{div_round, div_round_i128, lemma_div_round_between};
use vstd::prelude::*;

verus! {

/// `x` of the fourth parallelogram corner `D = A + (C - B)`.
pub open spec fn fourth_x(a: Point, b: Point, c: Point) -> int {
    a.x + c.x - b.x
}

/// `y` of the fourth parallelogram corner `D = A + (C - B)`.
pub open spec fn fourth_y(a: Point, b: Point, c: Point) -> int {
    a.y + c.y - b.y
}

/// Squared Euclidean distance between two points.
pub open spec fn dist2(a: Point, b: Point) -> int {
    (a.x - b.x) * (a.x - b.x) + (a.y - b.y) * (a.y - b.y)
}

/// `x` of the orthogonal projection of `p` onto the line through `l`, with
/// the scalar projection `t = ((p - l.0) . (l.1 - l.0)) / |l.1 - l.0|^2`
/// applied to the direction and rounded to the nearest integer; projecting
/// onto a degenerate line returns the line's start.
pub open spec fn proj_x(l: Line, p: Point) -> int {
    if l.0 == l.1 {
        l.0.x as int
    } else {
        l.0.x + div_round(
            ((p.x - l.0.x) * (l.1.x - l.0.x) + (p.y - l.0.y) * (l.1.y - l.0.y)) * (l.1.x - l.0.x),
            dist2(l.0, l.1),
        )
    }
}

/// `y` of the orthogonal projection of `p` onto the line through `l`.
pub open spec fn proj_y(l: Line, p: Point) -> int {
    if l.0 == l.1 {
        l.0.y as int
    } else {
        l.0.y + div_round(
            ((p.x - l.0.x) * (l.1.x - l.0.x) + (p.y - l.0.y) * (l.1.y - l.0.y)) * (l.1.y - l.0.y),
            dist2(l.0, l.1),
        )
    }
}

/// Completing A, B, C with `D = A + (C - B)` yields a parallelogram: the side
/// from B to A equals, as a vector, the side from C to D.
pub proof fn lemma_parallelogram(a: Point, b: Point, c: Point)
    ensures
        fourth_x(a, b, c) - c.x == a.x - b.x,
        fourth_y(a, b, c) - c.y == a.y - b.y,
{
}

/// The fourth parallelogram corner `D = A + (C - B)`, or `None` when it
/// leaves the pixel coordinate space.
pub fn try_fourth_point(a: &Point, b: &Point, c: &Point) -> (d: Option<Point>)
    ensures
        match d {
            Some(q) => fits_i32(fourth_x(*a, *b, *c)) && fits_i32(fourth_y(*a, *b, *c)) && q.x
                == fourth_x(*a, *b, *c) && q.y == fourth_y(*a, *b, *c),
            None => !(fits_i32(fourth_x(*a, *b, *c)) && fits_i32(fourth_y(*a, *b, *c))),
        },
{
    let dx: i64 = a.x as i64 + (c.x as i64 - b.x as i64);
    let dy: i64 = a.y as i64 + (c.y as i64 - b.y as i64);
    if fits_i64_range(dx) && fits_i64_range(dy) {
        Some(Point { x: dx as i32, y: dy as i32 })
    } else {
        None
    }
}

/// Squared Euclidean distance, exactly, for any two points.
pub fn dist_squared(a: &Point, b: &Point) -> (d: i128)
    ensures
        d == dist2(*a, *b),
        d >= 0,
{
    let dx: i64 = a.x as i64 - b.x as i64;
    let dy: i64 = a.y as i64 - b.y as i64;
    proof {
        assert(0 <= (dx as int) * (dx as int) <= 0x1_0000_0000_0000_0000 && 0 <= (dy as int) * (dy
            as int) <= 0x1_0000_0000_0000_0000) by (nonlinear_arith)
            requires
                -0x1_0000_0000 <= dx <= 0x1_0000_0000,
                -0x1_0000_0000 <= dy <= 0x1_0000_0000,
        ;
    }
    (dx as i128) * (dx as i128) + (dy as i128) * (dy as i128)
}

/// Order two diagonals so that the one of greater Euclidean length comes
/// first; a tie keeps the given order.  Lengths compare by their squares,
/// which is exact.
pub fn longer_diagonal_first(d1: &Line, d2: &Line) -> (r: (Line, Line))
    ensures
        dist2(r.0.0, r.0.1) >= dist2(r.1.0, r.1.1),
        dist2(d2.0, d2.1) > dist2(d1.0, d1.1) ==> r == (*d2, *d1),
        dist2(d2.0, d2.1) <= dist2(d1.0, d1.1) ==> r == (*d1, *d2),
{
    let l1: i128 = dist_squared(&d1.0, &d1.1);
    let l2: i128 = dist_squared(&d2.0, &d2.1);
    if l2 > l1 {
        (d2.clone(), d1.clone())
    } else {
        (d1.clone(), d2.clone())
    }
}

/// Midpoint of `a` and `c`, each coordinate rounded to the nearest integer
/// (ties away from zero).
pub fn midpoint(a: &Point, c: &Point) -> (m: Point)
    ensures
        m.x == div_round(a.x + c.x, 2),
        m.y == div_round(a.y + c.y, 2),
{
    proof {
        lemma_div_round_between(a.x as int, c.x as int, 2, 1);
        lemma_div_round_between(a.y as int, c.y as int, 2, 1);
        assert(2 * (a.x as int) + 1 * (c.x - a.x) == a.x + c.x);
        assert(2 * (a.y as int) + 1 * (c.y - a.y) == a.y + c.y);
    }
    let mx: i128 = div_round_i128(a.x as i128 + c.x as i128, 2);
    let my: i128 = div_round_i128(a.y as i128 + c.y as i128, 2);
    Point { x: mx as i32, y: my as i32 }
}

/// The projection of `p` onto the line through `l`, in wide integers: exactly
/// `(proj_x, proj_y)`, whether or not it fits in pixel coordinates.
fn project_wide(l: &Line, p: &Point) -> (s: (i128, i128))
    ensures
        s.0 == proj_x(*l, *p),
        s.1 == proj_y(*l, *p),
{
    if l.0.x == l.1.x && l.0.y == l.1.y {
        return (l.0.x as i128, l.0.y as i128);
    }
    let acx: i64 = l.1.x as i64 - l.0.x as i64;
    let acy: i64 = l.1.y as i64 - l.0.y as i64;
    let abx: i64 = p.x as i64 - l.0.x as i64;
    let aby: i64 = p.y as i64 - l.0.y as i64;
    proof {
        assert((acx as int) * (acx as int) + (acy as int) * (acy as int) > 0) by (nonlinear_arith)
            requires
                acx != 0 || acy != 0,
        ;
        assert({
            &&& (abx as int) * (acx as int) <= 0x1_0000_0000_0000_0000
            &&& (abx as int) * (acx as int) >= -0x1_0000_0000_0000_0000
            &&& (aby as int) * (acy as int) <= 0x1_0000_0000_0000_0000
            &&& (aby as int) * (acy as int) >= -0x1_0000_0000_0000_0000
            &&& (acx as int) * (acx as int) <= 0x1_0000_0000_0000_0000
            &&& (acy as int) * (acy as int) <= 0x1_0000_0000_0000_0000
        }) by (nonlinear_arith)
            requires
                -0x1_0000_0000 <= acx <= 0x1_0000_0000,
                -0x1_0000_0000 <= acy <= 0x1_0000_0000,
                -0x1_0000_0000 <= abx <= 0x1_0000_0000,
                -0x1_0000_0000 <= aby <= 0x1_0000_0000,
        ;
    }
    let dot: i128 = (abx as i128) * (acx as i128) + (aby as i128) * (acy as i128);
    let den: i128 = (acx as i128) * (acx as i128) + (acy as i128) * (acy as i128);
    proof {
        assert({
            &&& (dot as int) * (acx as int) <= 0x4_0000_0000_0000_0000_0000_0000
            &&& (dot as int) * (acx as int) >= -0x4_0000_0000_0000_0000_0000_0000
            &&& (dot as int) * (acy as int) <= 0x4_0000_0000_0000_0000_0000_0000
            &&& (dot as int) * (acy as int) >= -0x4_0000_0000_0000_0000_0000_0000
        }) by (nonlinear_arith)
            requires
                -0x2_0000_0000_0000_0000 <= dot <= 0x2_0000_0000_0000_0000,
                -0x1_0000_0000 <= acx <= 0x1_0000_0000,
                -0x1_0000_0000 <= acy <= 0x1_0000_0000,
        ;
    }
    proof {
        assert(den == dist2(l.0, l.1)) by (nonlinear_arith)
            requires
                den == (acx as int) * (acx as int) + (acy as int) * (acy as int),
                acx == l.1.x - l.0.x,
                acy == l.1.y - l.0.y,
                dist2(l.0, l.1) == (l.0.x - l.1.x) * (l.0.x - l.1.x) + (l.0.y - l.1.y) * (l.0.y
                    - l.1.y),
        ;
    }
    let qx: i128 = div_round_i128(dot * (acx as i128), den);
    let qy: i128 = div_round_i128(dot * (acy as i128), den);
    (l.0.x as i128 + qx, l.0.y as i128 + qy)
}

/// Orthogonal projection of `p` onto the line through `l`, rounded to pixel
/// coordinates; a degenerate line projects everything to its start point.
pub fn project_point_onto_line(l: &Line, p: &Point) -> (s: Point)
    requires
        fits_i32(proj_x(*l, *p)),
        fits_i32(proj_y(*l, *p)),
    ensures
        s.x == proj_x(*l, *p),
        s.y == proj_y(*l, *p),
{
    let q: (i128, i128) = project_wide(l, p);
    Point { x: q.0 as i32, y: q.1 as i32 }
}

/// Orthogonal projection of `p` onto the line through `l`, or `None` when the
/// rounded projection leaves the pixel coordinate space.
pub fn project_point_checked(l: &Line, p: &Point) -> (s: Option<Point>)
    ensures
        match s {
            Some(q) => fits_i32(proj_x(*l, *p)) && fits_i32(proj_y(*l, *p)) && q.x == proj_x(
                *l,
                *p,
            ) && q.y == proj_y(*l, *p),
            None => !(fits_i32(proj_x(*l, *p)) && fits_i32(proj_y(*l, *p))),
        },
{
    let q: (i128, i128) = project_wide(l, p);
    if -0x8000_0000 <= q.0 && q.0 <= 0x7fff_ffff && -0x8000_0000 <= q.1 && q.1 <= 0x7fff_ffff {
        Some(Point { x: q.0 as i32, y: q.1 as i32 })
    } else {
        None
    }
}

/// The front face of a cube and its depth offset stay within the pixel
/// coordinate space: the derived fourth corner and all four translated
/// back-face corners fit.
pub open spec fn cube_face_wf(a: Point, b: Point, c: Point, offset: Point) -> bool {
    &&& fits_i32(fourth_x(a, b, c))
    &&& fits_i32(fourth_y(a, b, c))
    &&& fits_i32(a.x + offset.x)
    &&& fits_i32(a.y + offset.y)
    &&& fits_i32(b.x + offset.x)
    &&& fits_i32(b.y + offset.y)
    &&& fits_i32(c.x + offset.x)
    &&& fits_i32(c.y + offset.y)
    &&& fits_i32(fourth_x(a, b, c) + offset.x)
    &&& fits_i32(fourth_y(a, b, c) + offset.y)
}

/// A cube skeleton: a quadrilateral front face `a1 b1 c1 d1` and a back face
/// `a2 b2 c2 d2`, its translate by the solved depth offset.
#[derive(Clone, Copy, Debug, PartialEq, Eq, Structural)]
pub struct Cube {
    pub a1: Point,
    pub b1: Point,
    pub c1: Point,
    pub d1: Point,
    pub a2: Point,
    pub b2: Point,
    pub c2: Point,
    pub d2: Point,
}

/// The pixel sequence of the twelve cube edges: front face, connecting
/// edges, back face, in the order they are drawn.
pub open spec fn cube_outline(q: Cube) -> Seq<(int, int)> {
    line_pixels(q.a1, q.b1) + line_pixels(q.b1, q.c1) + line_pixels(q.c1, q.d1) + line_pixels(
        q.d1,
        q.a1,
    ) + line_pixels(q.a1, q.a2) + line_pixels(q.b1, q.b2) + line_pixels(q.c1, q.c2) + line_pixels(
        q.d1,
        q.d2,
    ) + line_pixels(q.a2, q.b2) + line_pixels(q.b2, q.c2) + line_pixels(q.c2, q.d2) + line_pixels(
        q.d2,
        q.a2,
    )
}

impl Cube {
    /// Assemble the cube from three front-face corners and the solved depth
    /// offset: `d1` completes the parallelogram, and the back face is the
    /// front face translated by the offset.
    pub fn from_face_and_offset(a: &Point, b: &Point, c: &Point, offset: &Point) -> (cube: Cube)
        requires
            cube_face_wf(*a, *b, *c, *offset),
        ensures
            cube.a1 == *a,
            cube.b1 == *b,
            cube.c1 == *c,
            cube.d1.x == fourth_x(*a, *b, *c) && cube.d1.y == fourth_y(*a, *b, *c),
            cube.a2.x == a.x + offset.x && cube.a2.y == a.y + offset.y,
            cube.b2.x == b.x + offset.x && cube.b2.y == b.y + offset.y,
            cube.c2.x == c.x + offset.x && cube.c2.y == c.y + offset.y,
            cube.d2.x == cube.d1.x + offset.x && cube.d2.y == cube.d1.y + offset.y,
    {
        let dx: i64 = a.x as i64 + (c.x as i64 - b.x as i64);
        let dy: i64 = a.y as i64 + (c.y as i64 - b.y as i64);
        let d: Point = Point { x: dx as i32, y: dy as i32 };
        Cube {
            a1: a.clone(),
            b1: b.clone(),
            c1: c.clone(),
            d1: d,
            a2: Point { x: (a.x as i64 + offset.x as i64) as i32, y: (a.y as i64 + offset.y as i64) as i32 },
            b2: Point { x: (b.x as i64 + offset.x as i64) as i32, y: (b.y as i64 + offset.y as i64) as i32 },
            c2: Point { x: (c.x as i64 + offset.x as i64) as i32, y: (c.y as i64 + offset.y as i64) as i32 },
            d2: Point { x: (dx + offset.x as i64) as i32, y: (dy + offset.y as i64) as i32 },
        }
    }

    /// Assemble the cube, or `None` when a derived corner leaves the pixel
    /// coordinate space.
    pub fn try_from_face_and_offset(a: &Point, b: &Point, c: &Point, offset: &Point) -> (cube:
        Option<Cube>)
        ensures
            match cube {
                Some(q) => cube_face_wf(*a, *b, *c, *offset) && q == Cube::from_face_spec(
                    *a,
                    *b,
                    *c,
                    *offset,
                ),
                None => !cube_face_wf(*a, *b, *c, *offset),
            },
    {
        let dx: i64 = a.x as i64 + (c.x as i64 - b.x as i64);
        let dy: i64 = a.y as i64 + (c.y as i64 - b.y as i64);
        if !fits_i64_range(dx) || !fits_i64_range(dy) || !fits_i64_range(a.x as i64 + offset.x
            as i64) || !fits_i64_range(a.y as i64 + offset.y as i64) || !fits_i64_range(
            b.x as i64 + offset.x as i64,
        ) || !fits_i64_range(b.y as i64 + offset.y as i64) || !fits_i64_range(
            c.x as i64 + offset.x as i64,
        ) || !fits_i64_range(c.y as i64 + offset.y as i64) || !fits_i64_range(
            dx + offset.x as i64,
        ) || !fits_i64_range(dy + offset.y as i64) {
            return None;
        }
        Some(Cube::from_face_and_offset(a, b, c, offset))
    }

    /// The cube `from_face_and_offset` builds, as a spec-level value.
    pub open spec fn from_face_spec(a: Point, b: Point, c: Point, offset: Point) -> Cube {
        Cube {
            a1: a,
            b1: b,
            c1: c,
            d1: Point { x: (a.x + c.x - b.x) as i32, y: (a.y + c.y - b.y) as i32 },
            a2: Point { x: (a.x + offset.x) as i32, y: (a.y + offset.y) as i32 },
            b2: Point { x: (b.x + offset.x) as i32, y: (b.y + offset.y) as i32 },
            c2: Point { x: (c.x + offset.x) as i32, y: (c.y + offset.y) as i32 },
            d2: Point {
                x: (a.x + c.x - b.x + offset.x) as i32,
                y: (a.y + c.y - b.y + offset.y) as i32,
            },
        }
    }

    /// Rasterize the twelve edges of the skeleton, concatenated in drawing
    /// order.
    pub fn outline_pixels(&self) -> (out: Vec<Point>)
        ensures
            pixel_seq(out@) == cube_outline(*self),
    {
        let mut out: Vec<Point> = Line::new(&self.a1, &self.b1).pixels();
        let mut e2: Vec<Point> = Line::new(&self.b1, &self.c1).pixels();
        let mut e3: Vec<Point> = Line::new(&self.c1, &self.d1).pixels();
        let mut e4: Vec<Point> = Line::new(&self.d1, &self.a1).pixels();
        let mut e5: Vec<Point> = Line::new(&self.a1, &self.a2).pixels();
        let mut e6: Vec<Point> = Line::new(&self.b1, &self.b2).pixels();
        let mut e7: Vec<Point> = Line::new(&self.c1, &self.c2).pixels();
        let mut e8: Vec<Point> = Line::new(&self.d1, &self.d2).pixels();
        let mut e9: Vec<Point> = Line::new(&self.a2, &self.b2).pixels();
        let mut e10: Vec<Point> = Line::new(&self.b2, &self.c2).pixels();
        let mut e11: Vec<Point> = Line::new(&self.c2, &self.d2).pixels();
        let mut e12: Vec<Point> = Line::new(&self.d2, &self.a2).pixels();
        out.append(&mut e2);
        out.append(&mut e3);
        out.append(&mut e4);
        out.append(&mut e5);
        out.append(&mut e6);
        out.append(&mut e7);
        out.append(&mut e8);
        out.append(&mut e9);
        out.append(&mut e10);
        out.append(&mut e11);
        out.append(&mut e12);
        proof {
            assert(pixel_seq(out@) =~= cube_outline(*self));
        }
        out
    }

    /// Draw the twelve edges onto the sink, one `display` call per pixel of
    /// `cube_outline`, in order.
    pub fn draw_with_color<I: Displayable>(&self, image: &mut I, color: Color) {
        Line::new(&self.a1, &self.b1).draw_with_color(image, color);
        Line::new(&self.b1, &self.c1).draw_with_color(image, color);
        Line::new(&self.c1, &self.d1).draw_with_color(image, color);
        Line::new(&self.d1, &self.a1).draw_with_color(image, color);
        Line::new(&self.a1, &self.a2).draw_with_color(image, color);
        Line::new(&self.b1, &self.b2).draw_with_color(image, color);
        Line::new(&self.c1, &self.c2).draw_with_color(image, color);
        Line::new(&self.d1, &self.d2).draw_with_color(image, color);
        Line::new(&self.a2, &self.b2).draw_with_color(image, color);
        Line::new(&self.b2, &self.c2).draw_with_color(image, color);
        Line::new(&self.c2, &self.d2).draw_with_color(image, color);
        Line::new(&self.d2, &self.a2).draw_with_color(image, color);
    }
}

/// Whether a wide coordinate is representable as a pixel coordinate.
fn fits_i64_range(v: i64) -> (r: bool)
    ensures
        r == fits_i32(v as int),
{
    -0x8000_0000 <= v && v <= 0x7fff_ffff
}

impl Drawable for Cube {
    open spec fn wf(&self) -> bool {
        true
    }

    fn draw<I: Displayable>(&self, image: &mut I) {
        let c: Color = self.color();
        self.draw_with_color(image, c);
    }
}

} // verus!
