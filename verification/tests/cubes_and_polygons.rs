use drawing::cubes::{
    dist_squared, longer_diagonal_first, midpoint, project_point_checked, project_point_onto_line,
    try_fourth_point, Cube,
};
use drawing::geometrical_shapes::{Color, Displayable, Line, Point, Rectangle};
use drawing::polygons::Polygon;

/// A test sink that records every pixel write in order.
struct Canvas {
    writes: Vec<(i32, i32, Color)>,
}

impl Canvas {
    fn new() -> Canvas {
        Canvas { writes: Vec::new() }
    }
}

impl Displayable for Canvas {
    fn display(&mut self, x: i32, y: i32, color: Color) {
        self.writes.push((x, y, color));
    }
}

#[test]
fn fourth_point_completes_parallelogram() {
    let a = Point::new(0, 0);
    let b = Point::new(4, 0);
    let c = Point::new(5, 3);
    let d = try_fourth_point(&a, &b, &c).unwrap();
    assert_eq!(d, Point::new(1, 3));
    // A - B == D - C, on both axes
    assert_eq!((a.x - b.x, a.y - b.y), (d.x - c.x, d.y - c.y));
}

#[test]
fn fourth_point_overflow_is_rejected() {
    let a = Point::new(i32::MAX, 0);
    let b = Point::new(0, 0);
    let c = Point::new(1, 0);
    assert_eq!(try_fourth_point(&a, &b, &c), None);
}

#[test]
fn cube_from_face_translates_back_face() {
    let a = Point::new(0, 0);
    let b = Point::new(4, 0);
    let c = Point::new(5, 3);
    let offset = Point::new(2, -2);
    let q = Cube::try_from_face_and_offset(&a, &b, &c, &offset).unwrap();
    assert_eq!((q.a1, q.b1, q.c1, q.d1), (a, b, c, Point::new(1, 3)));
    assert_eq!(q.a2, Point::new(2, -2));
    assert_eq!(q.b2, Point::new(6, -2));
    assert_eq!(q.c2, Point::new(7, 1));
    assert_eq!(q.d2, Point::new(3, 1));
}

#[test]
fn cube_overflowing_offset_is_rejected() {
    let a = Point::new(i32::MAX - 1, 0);
    let b = Point::new(0, 0);
    let c = Point::new(0, 0);
    let offset = Point::new(5, 0);
    assert_eq!(Cube::try_from_face_and_offset(&a, &b, &c, &offset), None);
}

#[test]
fn cube_outline_is_twelve_edges() {
    let q = Cube::try_from_face_and_offset(
        &Point::new(0, 0),
        &Point::new(4, 0),
        &Point::new(5, 3),
        &Point::new(2, -2),
    )
    .unwrap();
    let edges = [
        (q.a1, q.b1),
        (q.b1, q.c1),
        (q.c1, q.d1),
        (q.d1, q.a1),
        (q.a1, q.a2),
        (q.b1, q.b2),
        (q.c1, q.c2),
        (q.d1, q.d2),
        (q.a2, q.b2),
        (q.b2, q.c2),
        (q.c2, q.d2),
        (q.d2, q.a2),
    ];
    let mut want: Vec<Point> = Vec::new();
    for (s, e) in edges.iter() {
        want.extend(Line::new(s, e).pixels());
    }
    assert_eq!(q.outline_pixels(), want);
    let color = Color { r: 5, g: 5, b: 5, a: 255 };
    let mut canvas = Canvas::new();
    q.draw_with_color(&mut canvas, color);
    let writes: Vec<(i32, i32, Color)> = want.iter().map(|p| (p.x, p.y, color)).collect();
    assert_eq!(canvas.writes, writes);
}

#[test]
fn projection_onto_horizontal_line() {
    let l = Line::new(&Point::new(0, 0), &Point::new(10, 0));
    let p = Point::new(3, 7);
    assert_eq!(project_point_onto_line(&l, &p), Point::new(3, 0));
}

#[test]
fn projection_onto_diagonal_rounds() {
    let l = Line::new(&Point::new(0, 0), &Point::new(4, 4));
    let p = Point::new(4, 0);
    assert_eq!(project_point_onto_line(&l, &p), Point::new(2, 2));
}

#[test]
fn projection_onto_degenerate_line_returns_start() {
    let l = Line::new(&Point::new(2, 2), &Point::new(2, 2));
    let p = Point::new(-9, 40);
    assert_eq!(project_point_onto_line(&l, &p), Point::new(2, 2));
}

#[test]
fn projection_beyond_coordinate_space_is_rejected() {
    let l = Line::new(&Point::new(0, 0), &Point::new(1, 0));
    let p = Point::new(i32::MAX, i32::MAX);
    // the projection onto the x axis is (i32::MAX, 0), which still fits
    assert_eq!(project_point_checked(&l, &p), Some(Point::new(i32::MAX, 0)));
    let l2 = Line::new(&Point::new(1, 0), &Point::new(2, 0));
    // projecting from a start point right of the axis origin pushes past MAX
    let p2 = Point::new(i32::MAX, 0);
    assert_eq!(project_point_checked(&l2, &p2), Some(Point::new(i32::MAX, 0)));
    // projecting (MAX, MAX) onto the 45-degree line through (0, 10) lands at
    // (MAX - 5, MAX + 5), whose y coordinate no longer fits
    let far = Line::new(&Point::new(0, 10), &Point::new(1, 11));
    let outside = project_point_checked(&far, &Point::new(i32::MAX, i32::MAX));
    assert_eq!(outside, None);
}

#[test]
fn longer_diagonal_comes_first() {
    let short = Line::new(&Point::new(0, 0), &Point::new(1, 1));
    let long = Line::new(&Point::new(0, 0), &Point::new(5, 5));
    assert_eq!(longer_diagonal_first(&short, &long), (long, short));
    assert_eq!(longer_diagonal_first(&long, &short), (long, short));
    // a tie keeps the given order
    let other = Line::new(&Point::new(3, 0), &Point::new(2, 1));
    assert_eq!(longer_diagonal_first(&short, &other), (short, other));
}

#[test]
fn midpoint_rounds_ties_away_from_zero() {
    assert_eq!(midpoint(&Point::new(0, 0), &Point::new(3, 0)), Point::new(2, 0));
    assert_eq!(midpoint(&Point::new(0, 0), &Point::new(-3, 0)), Point::new(-2, 0));
    assert_eq!(midpoint(&Point::new(2, 6), &Point::new(4, 9)), Point::new(3, 8));
}

#[test]
fn dist_squared_exact() {
    assert_eq!(dist_squared(&Point::new(0, 0), &Point::new(3, 4)), 25);
    assert_eq!(dist_squared(&Point::new(-2, 1), &Point::new(1, -3)), 25);
    assert_eq!(dist_squared(&Point::new(5, 5), &Point::new(5, 5)), 0);
}

#[test]
fn polygon_vertices_follow_steps() {
    let poly = Polygon::new(&Point::new(0, 0), 10, 4);
    let steps = vec![Point::new(10, 0), Point::new(0, 10), Point::new(-10, 0)];
    let v = poly.vertices_from_steps(&steps).unwrap();
    assert_eq!(
        v,
        vec![Point::new(0, 0), Point::new(10, 0), Point::new(10, 10), Point::new(0, 10)]
    );
    assert_eq!(v.len(), poly.corners as usize);
}

#[test]
fn polygon_rejects_bad_inputs() {
    let steps = vec![Point::new(10, 0), Point::new(0, 10), Point::new(-10, 0)];
    assert!(Polygon::new(&Point::new(0, 0), 10, 2).vertices_from_steps(&steps).is_none());
    assert!(Polygon::new(&Point::new(0, 0), 10, 5).vertices_from_steps(&steps).is_none());
    let overflowing = vec![Point::new(i32::MAX, 0), Point::new(i32::MAX, 0)];
    assert!(
        Polygon::new(&Point::new(5, 0), 10, 3).vertices_from_steps(&overflowing).is_none()
    );
}

#[test]
fn polygon_edges_close_the_cycle() {
    let vertices = vec![
        Point::new(0, 0),
        Point::new(10, 0),
        Point::new(10, 10),
        Point::new(0, 10),
    ];
    let edges = Polygon::edges(&vertices);
    assert_eq!(edges.len(), 4);
    for i in 0..3 {
        assert_eq!(edges[i], Line(vertices[i], vertices[i + 1]));
    }
    assert_eq!(edges[3], Line(vertices[3], vertices[0]));
}

#[test]
fn polygon_outline_concatenates_cyclic_edges() {
    let vertices = vec![Point::new(0, 0), Point::new(4, 0), Point::new(2, 3)];
    let mut want: Vec<Point> = Vec::new();
    want.extend(Line::new(&vertices[0], &vertices[1]).pixels());
    want.extend(Line::new(&vertices[1], &vertices[2]).pixels());
    want.extend(Line::new(&vertices[2], &vertices[0]).pixels());
    assert_eq!(Polygon::outline_pixels(&vertices), want);
}

#[test]
fn polygon_outline_of_no_vertices_is_empty() {
    let vertices: Vec<Point> = Vec::new();
    assert!(Polygon::outline_pixels(&vertices).is_empty());
}

#[test]
fn polygon_random_has_five_corners() {
    for _ in 0..20 {
        let p = Polygon::random(100, 100);
        assert_eq!(p.corners, 5);
        assert!(30 <= p.size && p.size <= 300);
        assert!(0 <= p.start.x && p.start.x <= 100);
        assert!(0 <= p.start.y && p.start.y <= 100);
    }
}

#[test]
fn rectangle_outline_uses_derived_corners() {
    let rc = Rectangle::new(&Point::new(1, 1), &Point::new(4, 3));
    let a = Point::new(1, 1);
    let b = Point::new(1, 3);
    let c = Point::new(4, 3);
    let d = Point::new(4, 1);
    let mut want: Vec<Point> = Vec::new();
    want.extend(Line::new(&a, &b).pixels());
    want.extend(Line::new(&b, &c).pixels());
    want.extend(Line::new(&c, &d).pixels());
    want.extend(Line::new(&d, &a).pixels());
    assert_eq!(rc.outline_pixels(), want);
}
