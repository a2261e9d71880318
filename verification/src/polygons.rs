//! Approximately regular polygons: a start vertex, a per-edge length and a
//! corner count.  The caller supplies the per-edge integer displacements (the
//! rounded steps of a fixed turning angle around the chosen orientation); the
//! vertex chaining, the cyclic edge list and the outline rasterization are
//! exact and live here with exact contracts.

use crate::geometrical_shapes::{
    display_all, fits_i32, line_pixels, pixel_seq, rand_in_range, Color, Displayable, Line, Point,
};
use vstd::prelude::*;

verus! {

/// An approximately regular polygon: `corners` vertices, each edge of length
/// `size`, the first vertex at `start`.
#[derive(Clone, Copy, Debug, PartialEq, Eq, Structural)]
pub struct Polygon {
    pub start: Point,
    pub size: i32,
    pub corners: i32,
}

/// `x` of vertex `i` of the chain that starts at `start` and advances by one
/// displacement per vertex.
pub open spec fn vertex_x(start: Point, steps: Seq<Point>, i: int) -> int
    decreases i,
{
    if i <= 0 {
        start.x as int
    } else {
        vertex_x(start, steps, i - 1) + steps[i - 1].x
    }
}

/// `y` of vertex `i` of the chain.
pub open spec fn vertex_y(start: Point, steps: Seq<Point>, i: int) -> int
    decreases i,
{
    if i <= 0 {
        start.y as int
    } else {
        vertex_y(start, steps, i - 1) + steps[i - 1].y
    }
}

/// Every vertex of the chain stays within the pixel coordinate space.
pub open spec fn steps_fit(start: Point, steps: Seq<Point>) -> bool {
    forall|i: int|
        0 <= i <= steps.len() ==> fits_i32(#[trigger] vertex_x(start, steps, i)) && fits_i32(
            vertex_y(start, steps, i),
        )
}

/// The pixel sequence of the first `k` cyclic edges of the vertex list:
/// edge `i` runs from vertex `i` to vertex `(i + 1) mod n`.
pub open spec fn polygon_outline_upto(vs: Seq<Point>, k: int) -> Seq<(int, int)>
    decreases k,
{
    if k <= 0 {
        Seq::empty()
    } else {
        polygon_outline_upto(vs, k - 1) + line_pixels(vs[k - 1], vs[k % (vs.len() as int)])
    }
}

/// The pixel sequence of all cyclic edges of the vertex list, the closing
/// edge from the last vertex back to the first included.
pub open spec fn polygon_outline(vs: Seq<Point>) -> Seq<(int, int)> {
    polygon_outline_upto(vs, vs.len() as int)
}

impl Polygon {
    pub fn new(start: &Point, size: i32, corners: i32) -> (p: Self)
        ensures
            p.start == *start,
            p.size == size,
            p.corners == corners,
    {
        Polygon { start: start.clone(), size, corners }
    }

    /// A five-cornered polygon with a random start point in the box and a
    /// random edge length between 30 and a fifth of 1500.
    pub fn random(max_x: i32, max_y: i32) -> (p: Self)
        requires
            max_x >= 0,
            max_y >= 0,
        ensures
            p.corners == 5,
            30 <= p.size <= 300,
            0 <= p.start.x <= max_x,
            0 <= p.start.y <= max_y,
    {
        let corners: i32 = 5;
        let size: i32 = rand_in_range(30, 1500 / corners);
        Polygon::new(&Point::random(max_x, max_y), size, corners)
    }

    /// Chain the given per-edge displacements from the start point: vertex 0
    /// is the start and vertex `i + 1` is vertex `i` plus `steps[i]`.  Yields
    /// the `corners` vertices exactly when the polygon has at least three
    /// corners, one displacement is given per remaining vertex, and no vertex
    /// leaves the pixel coordinate space.
    #[verifier::loop_isolation(false)]
    pub fn vertices_from_steps(&self, steps: &Vec<Point>) -> (r: Option<Vec<Point>>)
        ensures
            match r {
                Some(v) => {
                    &&& self.corners >= 3
                    &&& steps@.len() == self.corners - 1
                    &&& steps_fit(self.start, steps@)
                    &&& v@.len() == self.corners
                    &&& forall|i: int|
                        0 <= i < v@.len() ==> (#[trigger] v@[i])@ == (
                        vertex_x(self.start, steps@, i),
                        vertex_y(self.start, steps@, i),
                        )
                },
                None => !(self.corners >= 3 && steps@.len() == self.corners - 1 && steps_fit(
                    self.start,
                    steps@,
                )),
            },
    {
        if self.corners < 3 {
            return None;
        }
        if steps.len() != (self.corners - 1) as usize {
            return None;
        }
        let mut v: Vec<Point> = Vec::new();
        v.push(self.start.clone());
        let mut x: i64 = self.start.x as i64;
        let mut y: i64 = self.start.y as i64;
        let mut i: usize = 0;
        while i < steps.len()
            invariant
                0 <= i <= steps@.len(),
                v@.len() == i + 1,
                x == vertex_x(self.start, steps@, i as int),
                y == vertex_y(self.start, steps@, i as int),
                fits_i32(x as int),
                fits_i32(y as int),
                forall|k: int|
                    0 <= k <= i ==> fits_i32(#[trigger] vertex_x(self.start, steps@, k))
                        && fits_i32(vertex_y(self.start, steps@, k)),
                forall|k: int|
                    0 <= k < v@.len() ==> (#[trigger] v@[k])@ == (
                    vertex_x(self.start, steps@, k),
                    vertex_y(self.start, steps@, k),
                    ),
            decreases steps@.len() - i,
        {
            let nx: i64 = x + steps[i].x as i64;
            let ny: i64 = y + steps[i].y as i64;
            proof {
                assert(vertex_x(self.start, steps@, i + 1) == nx);
                assert(vertex_y(self.start, steps@, i + 1) == ny);
            }
            if nx < -0x8000_0000 || nx > 0x7fff_ffff || ny < -0x8000_0000 || ny > 0x7fff_ffff {
                proof {
                    assert(!steps_fit(self.start, steps@));
                }
                return None;
            }
            v.push(Point { x: nx as i32, y: ny as i32 });
            x = nx;
            y = ny;
            i = i + 1;
        }
        Some(v)
    }

    /// The cyclic edge list of a vertex list: edge `i` connects vertex `i` to
    /// vertex `(i + 1) mod n`, so the last edge closes the cycle back to the
    /// first vertex.
    #[verifier::loop_isolation(false)]
    pub fn edges(vertices: &Vec<Point>) -> (r: Vec<Line>)
        ensures
            r@.len() == vertices@.len(),
            forall|i: int|
                0 <= i < r@.len() ==> (#[trigger] r@[i]).0 == vertices@[i] && r@[i].1
                    == vertices@[(i + 1) % (vertices@.len() as int)],
    {
        let mut r: Vec<Line> = Vec::new();
        let mut i: usize = 0;
        while i < vertices.len()
            invariant
                0 <= i <= vertices@.len(),
                r@.len() == i,
                forall|k: int|
                    0 <= k < i ==> (#[trigger] r@[k]).0 == vertices@[k] && r@[k].1 == vertices@[(k
                        + 1) % (vertices@.len() as int)],
            decreases vertices@.len() - i,
        {
            let next: usize = if i + 1 == vertices.len() {
                0
            } else {
                i + 1
            };
            proof {
                if i + 1 == vertices@.len() {
                    vstd::arithmetic::div_mod::lemma_mod_self_0(vertices@.len() as int);
                } else {
                    vstd::arithmetic::div_mod::lemma_small_mod(
                        (i + 1) as nat,
                        vertices@.len() as nat,
                    );
                }
            }
            r.push(Line::new(&vertices[i], &vertices[next]));
            i = i + 1;
        }
        r
    }

    /// Rasterize the outline: the cyclic edges of the vertex list,
    /// concatenated in order.
    #[verifier::loop_isolation(false)]
    pub fn outline_pixels(vertices: &Vec<Point>) -> (out: Vec<Point>)
        ensures
            pixel_seq(out@) == polygon_outline(vertices@),
    {
        let mut out: Vec<Point> = Vec::new();
        if vertices.len() == 0 {
            proof {
                assert(pixel_seq(out@) =~= polygon_outline(vertices@));
            }
            return out;
        }
        let mut i: usize = 0;
        while i < vertices.len()
            invariant
                0 <= i <= vertices@.len(),
                pixel_seq(out@) == polygon_outline_upto(vertices@, i as int),
            decreases vertices@.len() - i,
        {
            let next: usize = if i + 1 == vertices.len() {
                0
            } else {
                i + 1
            };
            proof {
                if i + 1 == vertices@.len() {
                    vstd::arithmetic::div_mod::lemma_mod_self_0(vertices@.len() as int);
                } else {
                    vstd::arithmetic::div_mod::lemma_small_mod(
                        (i + 1) as nat,
                        vertices@.len() as nat,
                    );
                }
            }
            let mut e: Vec<Point> = Line::new(&vertices[i], &vertices[next]).pixels();
            out.append(&mut e);
            proof {
                assert(pixel_seq(out@) =~= polygon_outline_upto(vertices@, i + 1));
            }
            i = i + 1;
        }
        out
    }

    /// Draw the outline of the vertex list onto the sink, one `display` call
    /// per pixel of `polygon_outline`, in order.
    pub fn draw_from_vertices<I: Displayable>(vertices: &Vec<Point>, image: &mut I, color: Color) {
        let pts: Vec<Point> = Polygon::outline_pixels(vertices);
        display_all(image, &pts, color);
    }
}

/// The last cyclic edge connects the last vertex back to the first: the edge
/// list `Polygon::edges` returns always closes the polygon, whatever rounding
/// drift the vertices accumulated.
pub proof fn lemma_polygon_closes(edges: Seq<Line>, vs: Seq<Point>)
    requires
        vs.len() >= 1,
        edges.len() == vs.len(),
        forall|i: int|
            0 <= i < edges.len() ==> (#[trigger] edges[i]).0 == vs[i] && edges[i].1 == vs[(i + 1) % (
            vs.len() as int)],
    ensures
        edges[edges.len() - 1].0 == vs[vs.len() - 1],
        edges[edges.len() - 1].1 == vs[0],
{
    let n: int = vs.len() as int;
    vstd::arithmetic::div_mod::lemma_mod_self_0(n);
    assert(edges[n - 1].0 == vs[n - 1]);
    assert(edges[n - 1].1 == vs[(n - 1 + 1) % n]);
}

} // verus!
