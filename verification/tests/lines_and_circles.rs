use drawing::geometrical_shapes::{Circle, Color, Displayable, Drawable, Line, Point, Triangle};

/// A test sink that records every pixel write in order.
struct Canvas {
    writes: Vec<(i32, i32, Color)>,
}

impl Canvas {
    fn new() -> Canvas {
        Canvas { writes: Vec::new() }
    }
}

impl Displayable for Canvas {
    fn display(&mut self, x: i32, y: i32, color: Color) {
        self.writes.push((x, y, color));
    }
}

fn pts(v: &[(i32, i32)]) -> Vec<Point> {
    v.iter().map(|&(x, y)| Point::new(x, y)).collect()
}

#[test]
fn line_horizontal_exact() {
    let l = Line::new(&Point::new(0, 0), &Point::new(3, 0));
    assert_eq!(l.pixels(), pts(&[(0, 0), (1, 0), (2, 0), (3, 0)]));
}

#[test]
fn line_diagonal_exact() {
    let l = Line::new(&Point::new(0, 0), &Point::new(3, 3));
    assert_eq!(l.pixels(), pts(&[(0, 0), (1, 1), (2, 2), (3, 3)]));
}

#[test]
fn line_vertical_exact() {
    let l = Line::new(&Point::new(7, 2), &Point::new(7, 5));
    assert_eq!(l.pixels(), pts(&[(7, 2), (7, 3), (7, 4), (7, 5)]));
}

#[test]
fn line_shallow_rounding_exact() {
    // round(2*i / 5) for i = 0..=5, ties away from zero
    let l = Line::new(&Point::new(0, 0), &Point::new(5, 2));
    assert_eq!(l.pixels(), pts(&[(0, 0), (1, 0), (2, 1), (3, 1), (4, 2), (5, 2)]));
}

#[test]
fn line_steep_descending_exact() {
    // steep, so iteration runs over y from the lower endpoint (1, 0) upward;
    // x = round(1 - y/3)
    let l = Line::new(&Point::new(0, 3), &Point::new(1, 0));
    assert_eq!(l.pixels(), pts(&[(1, 0), (1, 1), (0, 2), (0, 3)]));
}

#[test]
fn line_degenerate_single_pixel() {
    let l = Line::new(&Point::new(5, 7), &Point::new(5, 7));
    assert_eq!(l.pixels(), pts(&[(5, 7)]));
}

#[test]
fn line_length_is_dominant_extent_plus_one() {
    let cases = [
        ((0, 0), (3, 0), 4),
        ((0, 0), (0, -9), 10),
        ((2, 3), (-4, 5), 7),
        ((-1, -1), (-1, -1), 1),
        ((10, -3), (3, 9), 13),
    ];
    for &((ax, ay), (bx, by), want) in cases.iter() {
        let l = Line::new(&Point::new(ax, ay), &Point::new(bx, by));
        assert_eq!(l.pixels().len(), want);
    }
}

#[test]
fn line_contains_both_endpoints() {
    let cases = [((2, 3), (-4, 5)), ((10, -3), (3, 9)), ((0, 0), (0, 7)), ((1, 1), (1, 1))];
    for &((ax, ay), (bx, by)) in cases.iter() {
        let l = Line::new(&Point::new(ax, ay), &Point::new(bx, by));
        let px = l.pixels();
        assert!(px.contains(&Point::new(ax, ay)));
        assert!(px.contains(&Point::new(bx, by)));
    }
}

#[test]
fn line_reverse_same_pixels() {
    let cases = [((2, 3), (-4, 5)), ((10, -3), (3, 9)), ((0, 0), (5, 2)), ((0, 0), (0, 7))];
    for &((ax, ay), (bx, by)) in cases.iter() {
        let fwd = Line::new(&Point::new(ax, ay), &Point::new(bx, by)).pixels();
        let rev = Line::new(&Point::new(bx, by), &Point::new(ax, ay)).pixels();
        assert_eq!(fwd, rev);
    }
}

#[test]
fn line_rasterization_idempotent() {
    let l = Line::new(&Point::new(-3, 11), &Point::new(14, -2));
    assert_eq!(l.pixels(), l.pixels());
    let color = Color { r: 1, g: 2, b: 3, a: 255 };
    let mut c1 = Canvas::new();
    let mut c2 = Canvas::new();
    l.draw_with_color(&mut c1, color);
    l.draw_with_color(&mut c2, color);
    assert!(!c1.writes.is_empty());
    assert_eq!(c1.writes, c2.writes);
}

#[test]
fn line_draw_writes_every_pixel_once() {
    let l = Line::new(&Point::new(0, 0), &Point::new(3, 3));
    let color = Color { r: 9, g: 8, b: 7, a: 255 };
    let mut canvas = Canvas::new();
    l.draw_with_color(&mut canvas, color);
    let want: Vec<(i32, i32, Color)> =
        l.pixels().iter().map(|p| (p.x, p.y, color)).collect();
    assert_eq!(canvas.writes, want);
}

#[test]
fn circle_radius_zero_emits_center() {
    let c = Circle::new(&Point::new(9, -4), 0);
    let px = c.pixels();
    assert_eq!(px.len(), 8);
    for p in px.iter() {
        assert_eq!(*p, Point::new(9, -4));
    }
}

#[test]
fn circle_radius_one_exact() {
    let c = Circle::new(&Point::new(0, 0), 1);
    assert_eq!(
        c.pixels(),
        pts(&[(0, 1), (0, -1), (0, 1), (0, -1), (1, 0), (-1, 0), (1, 0), (-1, 0)])
    );
}

#[test]
fn circle_pixels_on_ring() {
    let c = Circle::new(&Point::new(50, 50), 10);
    for p in c.pixels().iter() {
        let dx = (p.x - 50) as f64;
        let dy = (p.y - 50) as f64;
        let dist = (dx * dx + dy * dy).sqrt().round() as i32;
        assert!((dist - 10).abs() <= 1, "pixel ({}, {}) at distance {}", p.x, p.y, dist);
    }
}

#[test]
fn circle_scenario_center_fifty_radius_ten() {
    let c = Circle::new(&Point::new(50, 50), 10);
    let px = c.pixels();
    assert!(!px.is_empty());
    for p in px.iter() {
        assert!((p.x - 50).abs() <= 11 && (p.y - 50).abs() <= 11);
    }
    assert!(px.contains(&Point::new(60, 50)) || px.contains(&Point::new(50, 60)));
}

#[test]
fn circle_symmetric_under_center_reflections() {
    let c = Circle::new(&Point::new(50, 50), 10);
    let px = c.pixels();
    for p in px.iter() {
        assert!(px.contains(&Point::new(100 - p.x, p.y)));
        assert!(px.contains(&Point::new(p.x, 100 - p.y)));
    }
}

#[test]
fn circle_rasterization_idempotent() {
    let c = Circle::new(&Point::new(-7, 3), 5);
    assert_eq!(c.pixels(), c.pixels());
    let color = Color { r: 0, g: 0, b: 0, a: 255 };
    let mut c1 = Canvas::new();
    let mut c2 = Canvas::new();
    c.draw_with_color(&mut c1, color);
    c.draw_with_color(&mut c2, color);
    assert!(!c1.writes.is_empty());
    assert_eq!(c1.writes, c2.writes);
}

#[test]
fn triangle_outline_is_three_edges() {
    let t = Triangle::new(&Point::new(0, 0), &Point::new(4, 0), &Point::new(0, 4));
    let mut want = Line::new(&Point::new(0, 0), &Point::new(4, 0)).pixels();
    want.extend(Line::new(&Point::new(4, 0), &Point::new(0, 4)).pixels());
    want.extend(Line::new(&Point::new(0, 4), &Point::new(0, 0)).pixels());
    assert_eq!(t.outline_pixels(), want);
}

#[test]
fn point_draw_writes_itself() {
    let p = Point::new(2, 3);
    let mut canvas = Canvas::new();
    p.draw(&mut canvas);
    assert_eq!(canvas.writes.len(), 1);
    let (x, y, color) = canvas.writes[0];
    assert_eq!((x, y), (2, 3));
    assert_eq!(color.a, 255);
}

#[test]
fn random_shapes_stay_in_box() {
    for _ in 0..50 {
        let p = Point::random(10, 20);
        assert!(0 <= p.x && p.x <= 10 && 0 <= p.y && p.y <= 20);
        let l = Line::random(10, 10);
        for q in [l.0, l.1].iter() {
            assert!(0 <= q.x && q.x <= 10 && 0 <= q.y && q.y <= 10);
        }
        let c = Circle::random(200, 220);
        assert!(0 <= c.center.x && c.center.x <= 200);
        assert!(0 <= c.center.y && c.center.y <= 220);
        assert!(40 <= c.radius && c.radius <= 140);
    }
}
