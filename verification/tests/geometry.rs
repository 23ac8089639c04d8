//! Points, segments and polygons.

use nulu2d::Body;
use nulu2d::Point;
use nulu2d::Polygon;
use nulu2d::Scalar;
use nulu2d::Segment;
use nulu2d::Vector;

fn s(x: f64) -> Scalar {
    Scalar::from_bits(x.to_bits())
}

fn f(x: Scalar) -> f64 {
    f64::from_bits(x.to_bits())
}

fn pt(x: f64, y: f64) -> Point {
    Point::new(s(x), s(y))
}

fn similar(a: f64, b: f64) -> bool {
    (a - b).abs() < 1e-3
}

fn similar_points(a: Point, b: Point) -> bool {
    similar(f(a.x), f(b.x)) && similar(f(a.y), f(b.y))
}

#[test]
fn point_new() {
    let point = pt(-10.0, 15.5);
    assert!(similar(f(point.x), -10.0));
    assert!(similar(f(point.y), 15.5));
}

#[test]
fn zero() {
    let point = Point::zero();
    assert!(similar(f(point.x), 0.0));
    assert!(similar(f(point.y), 0.0));
}

#[test]
fn zero_is_positive_zero() {
    let point = Point::zero();
    assert_eq!(point.x.to_bits(), 0);
    assert_eq!(point.y.to_bits(), 0);
}

#[test]
fn point_to_replaces_both_coordinates() {
    let mut point = pt(2.0, 0.0);
    point.point_to(s(-1.5), s(7.0));
    assert_eq!(point, pt(-1.5, 7.0));
}

#[test]
fn perp_is_a_quarter_turn() {
    let v: Vector = pt(3.0, 4.0);
    assert_eq!(v.perp(), pt(-4.0, 3.0));
    assert_eq!(v.perp().perp(), pt(-3.0, -4.0));
    assert_eq!(v.perp().perp().perp().perp(), v);
    let flat = pt(1.0, 0.0).perp();
    assert_eq!(flat.x.to_bits(), (-0.0f64).to_bits());
    assert_eq!(flat.y.to_bits(), 1.0f64.to_bits());
}

#[test]
fn points_compare_as_numbers() {
    assert_eq!(pt(0.0, 1.0), pt(-0.0, 1.0));
    assert_ne!(pt(0.0, 1.0), pt(0.0, 1.0000000000000002));
    assert_ne!(pt(f64::NAN, 1.0), pt(f64::NAN, 1.0));
    assert_eq!(
        Segment::from_points(pt(0.0, 1.0), pt(2.0, 3.0)),
        Segment::from_points(pt(-0.0, 1.0), pt(2.0, 3.0))
    );
    assert_ne!(
        Segment::from_points(pt(0.0, 1.0), pt(2.0, 3.0)),
        Segment::from_points(pt(2.0, 3.0), pt(0.0, 1.0))
    );
}

#[test]
fn from_points() {
    let s = Segment::from_points(pt(0.0, 1.0), pt(1.0, 1.0));
    assert!(similar_points(s.a, pt(0.0, 1.0)));
    assert!(similar_points(s.b, pt(1.0, 1.0)));
}

#[test]
fn center() {
    let s = Segment::from_points(pt(0.0, 1.0), pt(1.0, 0.0));
    assert!(similar_points(s.center(), pt(0.0, 1.0)));
}

#[test]
fn polygon_new() {
    let vertices = vec![pt(-1.0, 0.0), pt(1.0, 2.0), pt(1.0, 0.0)];
    let p = Polygon::new(&vertices);
    assert_eq!(p.vertices, vertices);
}

#[test]
fn segments() {
    let vertices = vec![pt(-1.0, 0.0), pt(1.0, 2.0), pt(1.0, 0.0)];
    let p = Polygon::new(&vertices);
    let expected = vec![
        Segment::from_points(vertices[0], vertices[1]),
        Segment::from_points(vertices[1], vertices[2]),
        Segment::from_points(vertices[2], vertices[0]),
    ];
    assert_eq!(p.segments(), expected);
}

#[test]
fn segments_close_the_cycle() {
    for n in 3..12usize {
        let vertices: Vec<Point> = (0..n).map(|i| pt(i as f64, (i * i) as f64)).collect();
        let edges = Polygon::new(&vertices).segments();
        assert_eq!(edges.len(), n);
        for i in 0..n {
            assert_eq!(edges[i].a.x.to_bits(), vertices[i].x.to_bits());
            assert_eq!(edges[i].a.y.to_bits(), vertices[i].y.to_bits());
            assert_eq!(edges[i].b.x.to_bits(), vertices[(i + 1) % n].x.to_bits());
            assert_eq!(edges[i].b.y.to_bits(), vertices[(i + 1) % n].y.to_bits());
        }
    }
}

#[test]
fn positions() {
    let p = Polygon::new(&vec![pt(0.0, -2.0), pt(2.0, -2.0), pt(2.0, 1.0), pt(0.0, 1.0)]);
    assert_eq!(f(p.left()), 0.0);
    assert_eq!(f(p.right()), 2.0);
    assert_eq!(f(p.bottom()), -2.0);
    assert_eq!(f(p.top()), 1.0);
}

#[test]
fn extents_pass_over_nan() {
    let p = Polygon::new(&vec![pt(f64::NAN, 1.0), pt(3.0, f64::NAN), pt(-2.0, 5.0)]);
    assert_eq!(f(p.left()), -2.0);
    assert_eq!(f(p.right()), 3.0);
    assert_eq!(f(p.bottom()), 1.0);
    assert_eq!(f(p.top()), 5.0);

    let lost = Polygon::new(&vec![pt(f64::NAN, 0.0), pt(f64::NAN, 0.0), pt(f64::NAN, 0.0)]);
    assert_eq!(f(lost.left()), f64::INFINITY);
    assert_eq!(f(lost.right()), f64::NEG_INFINITY);
}

#[test]
fn extents_agree_with_a_fold_over_the_machine_numbers() {
    let xs = [45.3142533036254, 45.31232182518015, 45.23694281999268, 45.23500870841669];
    let ys = [-93.47527313511819, -93.34893036168069, -93.35167694371194, -93.47801971714944];
    let vertices: Vec<Point> = (0..4).map(|i| pt(xs[i], ys[i])).collect();
    let p = Polygon::new(&vertices);
    assert_eq!(f(p.left()), xs.iter().cloned().fold(f64::INFINITY, f64::min));
    assert_eq!(f(p.right()), xs.iter().cloned().fold(f64::NEG_INFINITY, f64::max));
    assert_eq!(f(p.bottom()), ys.iter().cloned().fold(f64::INFINITY, f64::min));
    assert_eq!(f(p.top()), ys.iter().cloned().fold(f64::NEG_INFINITY, f64::max));
}

#[test]
fn a_new_body_is_at_rest() {
    let shape = Polygon::new(&vec![pt(0.0, -2.0), pt(2.0, -2.0), pt(2.0, 1.0), pt(0.0, 1.0)]);
    let body = Body::new(shape, s(3.0), s(0.25), true, false);
    assert_eq!(f(body.mass), 3.0);
    assert_eq!(f(body.friction), 0.25);
    assert!(body.frictionless);
    assert!(!body.gravityless);
    assert_eq!(body.velocity.x.to_bits(), 0);
    assert_eq!(body.velocity.y.to_bits(), 0);
    assert_eq!(body.shape.vertices.len(), 4);
    assert_eq!(f(body.left()), 0.0);
    assert_eq!(f(body.right()), 2.0);
    assert_eq!(f(body.bottom()), -2.0);
    assert_eq!(f(body.top()), 1.0);
}
