//! The first touch of two moving shapes, from what the axes say.

use nulu2d::sweep::first_touch;
use nulu2d::sweep::Sweep;
use nulu2d::sweep::Touch;
use nulu2d::Scalar;

fn s(x: f64) -> Scalar {
    Scalar::from_bits(x.to_bits())
}

fn f(x: Scalar) -> f64 {
    f64::from_bits(x.to_bits())
}

fn moving(t1: f64, t2: f64) -> Sweep {
    Sweep::Moving { t1: s(t1), t2: s(t2) }
}

fn still(apart: bool) -> Sweep {
    Sweep::Still { apart }
}

fn at(touch: Touch) -> Option<(f64, usize)> {
    match touch {
        Touch::At(time, axis) => Some((f(time), axis)),
        _ => None,
    }
}

#[test]
fn shapes_touch_at_the_latest_entry() {
    let axes = vec![moving(1.0, 5.0), moving(2.0, 4.0), still(false), moving(0.5, 9.0)];
    assert_eq!(at(first_touch(&axes)), Some((2.0, 1)));
}

#[test]
fn the_two_times_of_an_axis_come_in_either_order() {
    let axes = vec![moving(5.0, 1.0), moving(4.0, 2.0)];
    assert_eq!(at(first_touch(&axes)), Some((2.0, 1)));
}

#[test]
fn of_axes_that_enter_together_the_first_is_named() {
    let axes = vec![moving(0.0, 5.0), moving(2.0, 4.0), moving(2.0, 9.0), moving(-0.0, 3.0)];
    assert_eq!(at(first_touch(&axes)), Some((2.0, 1)));
    let now = vec![moving(0.0, 5.0), moving(-0.0, 3.0)];
    assert_eq!(at(first_touch(&now)), Some((0.0, 0)));
}

#[test]
fn an_axis_left_before_the_last_is_entered_means_never() {
    let axes = vec![moving(1.0, 2.0), moving(3.0, 4.0)];
    assert!(matches!(first_touch(&axes), Touch::Never));
    let meet = vec![moving(1.0, 3.0), moving(3.0, 4.0)];
    assert_eq!(at(first_touch(&meet)), Some((3.0, 1)));
}

#[test]
fn a_touch_that_has_passed_means_never() {
    let axes = vec![moving(-5.0, -1.0), moving(-4.0, 2.0)];
    assert!(matches!(first_touch(&axes), Touch::Never));
}

#[test]
fn shapes_that_overlap_touch_already() {
    let axes = vec![moving(-5.0, 1.0), moving(-4.0, 2.0), still(false)];
    assert!(matches!(first_touch(&axes), Touch::Already));
    assert!(matches!(first_touch(&vec![still(false), still(false)]), Touch::Already));
    assert!(matches!(first_touch(&Vec::new()), Touch::Already));
}

#[test]
fn an_axis_without_motion_that_separates_means_never() {
    let axes = vec![moving(1.0, 5.0), still(true), moving(2.0, 4.0)];
    assert!(matches!(first_touch(&axes), Touch::Never));
    assert!(matches!(first_touch(&vec![still(true)]), Touch::Never));
}

#[test]
fn times_that_are_no_numbers_bound_nothing() {
    let axes = vec![moving(f64::NAN, f64::NAN), moving(2.0, 4.0), moving(f64::NAN, 3.0)];
    assert_eq!(at(first_touch(&axes)), Some((3.0, 2)));
    let open = vec![moving(1.0, f64::NAN)];
    assert!(matches!(first_touch(&open), Touch::Already));
}

#[test]
fn a_touch_at_infinity_is_reported_as_such() {
    let axes = vec![moving(f64::INFINITY, f64::INFINITY)];
    assert_eq!(at(first_touch(&axes)), Some((f64::INFINITY, 0)));
    let axes = vec![moving(f64::NEG_INFINITY, f64::INFINITY)];
    assert!(matches!(first_touch(&axes), Touch::Already));
}
