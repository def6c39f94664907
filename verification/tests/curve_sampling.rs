use dotfield::curve::{ControlPoint, Curve, CurveError, Interpolation};
use dotfield::fixed::{Point, HALF, ONE};

fn key(t: i64, x: i64, y: i64) -> ControlPoint {
    ControlPoint::new(t, Point::new(x, y), Interpolation::Linear)
}

fn zigzag() -> Curve {
    Curve::from_vec(vec![key(0, 0, 0), key(HALF, 100, -100), key(ONE, 300, 7)]).unwrap()
}

#[test]
fn from_vec_takes_three_points_at_the_fixed_parameters() {
    let points = vec![key(0, 1, 2), key(HALF, 3, 4), key(ONE, 5, 6)];
    let curve = Curve::from_vec(points.clone()).unwrap();
    assert_eq!(curve.keys(), points);
    assert_eq!(curve.last(), key(ONE, 5, 6));
}

#[test]
fn from_vec_refuses_a_wrong_count() {
    assert_eq!(Curve::from_vec(vec![]), Err(CurveError::MalformedCurve));
    assert_eq!(Curve::from_vec(vec![key(0, 0, 0)]), Err(CurveError::MalformedCurve));
    assert_eq!(
        Curve::from_vec(vec![key(0, 0, 0), key(HALF, 1, 1)]),
        Err(CurveError::MalformedCurve)
    );
    assert_eq!(
        Curve::from_vec(vec![key(0, 0, 0), key(HALF, 1, 1), key(ONE, 2, 2), key(ONE, 3, 3)]),
        Err(CurveError::MalformedCurve)
    );
}

#[test]
fn from_vec_refuses_wrong_parameters() {
    assert_eq!(
        Curve::from_vec(vec![key(1, 0, 0), key(HALF, 1, 1), key(ONE, 2, 2)]),
        Err(CurveError::MalformedCurve)
    );
    assert_eq!(
        Curve::from_vec(vec![key(0, 0, 0), key(HALF - 1, 1, 1), key(ONE, 2, 2)]),
        Err(CurveError::MalformedCurve)
    );
    assert_eq!(
        Curve::from_vec(vec![key(0, 0, 0), key(HALF, 1, 1), key(ONE + 1, 2, 2)]),
        Err(CurveError::MalformedCurve)
    );
    assert_eq!(
        Curve::from_vec(vec![key(ONE, 0, 0), key(HALF, 1, 1), key(0, 2, 2)]),
        Err(CurveError::MalformedCurve)
    );
    assert_eq!(
        Curve::from_vec(vec![key(0, 0, 0), key(0, 1, 1), key(0, 2, 2)]),
        Err(CurveError::MalformedCurve)
    );
}

#[test]
fn control_point_new_keeps_its_parts() {
    let k = ControlPoint::new(HALF, Point::new(9, 8), Interpolation::Linear);
    assert_eq!(k.t, HALF);
    assert_eq!(k.position, Point::new(9, 8));
    assert_eq!(k.interpolation, Interpolation::Linear);
}

#[test]
fn sample_clamped_below_zero_is_the_first_point() {
    let curve = zigzag();
    for t in [0, -1, -HALF, -ONE, i64::MIN] {
        assert_eq!(curve.sample_clamped(t), Point::new(0, 0));
    }
}

#[test]
fn sample_clamped_above_one_is_the_last_point() {
    let curve = zigzag();
    for t in [ONE, ONE + 1, 2 * ONE, i64::MAX] {
        assert_eq!(curve.sample_clamped(t), Point::new(300, 7));
    }
}

#[test]
fn sample_clamped_interpolates_in_the_first_segment() {
    let curve = zigzag();
    assert_eq!(curve.sample_clamped(HALF / 2), Point::new(50, -50));
    assert_eq!(curve.sample_clamped(HALF / 4), Point::new(25, -25));
    assert_eq!(curve.sample_clamped(1), Point::new(0, -1));
    assert_eq!(curve.sample_clamped(HALF - 1), Point::new(99, -100));
}

#[test]
fn sample_clamped_interpolates_in_the_second_segment() {
    let curve = zigzag();
    assert_eq!(curve.sample_clamped(HALF), Point::new(100, -100));
    assert_eq!(curve.sample_clamped(HALF + HALF / 2), Point::new(200, -47));
    assert_eq!(curve.sample_clamped(HALF + HALF / 4), Point::new(150, -74));
    assert_eq!(curve.sample_clamped(ONE - 1), Point::new(299, 6));
}

#[test]
fn sample_clamped_takes_extreme_coordinates() {
    let curve = Curve::from_vec(vec![
        key(0, i64::MIN, i64::MAX),
        key(HALF, i64::MAX, i64::MIN),
        key(ONE, 0, 0),
    ])
    .unwrap();
    assert_eq!(curve.sample_clamped(HALF / 2), Point::new(-1, -1));
    assert_eq!(curve.sample_clamped(HALF), Point::new(i64::MAX, i64::MIN));
    assert_eq!(curve.sample_clamped(HALF + HALF / 2), Point::new(i64::MAX / 2, i64::MIN / 2));
}

#[test]
fn sample_agrees_with_sample_clamped_in_range() {
    let curve = zigzag();
    for t in [0, 1, HALF / 2, HALF - 1, HALF, HALF + 1, ONE - 1, ONE] {
        assert_eq!(curve.sample(t), Ok(curve.sample_clamped(t)));
    }
    assert_eq!(curve.sample(0), Ok(Point::new(0, 0)));
    assert_eq!(curve.sample(ONE), Ok(Point::new(300, 7)));
}

#[test]
fn sample_refuses_parameters_out_of_range() {
    let curve = zigzag();
    for t in [-1, -ONE, i64::MIN, ONE + 1, 2 * ONE, i64::MAX] {
        assert_eq!(curve.sample(t), Err(CurveError::OutOfRange));
    }
}

#[test]
fn sample_nears_the_end_without_a_jump() {
    // What is left of the way to the end is the second segment's extent times
    // the share of the range that is left, up to one unit of rounding.
    let curve = zigzag();
    let end = curve.last().position;
    for left in [0i64, 1, 2, 1000, HALF / 2, HALF] {
        let p = curve.sample_clamped(ONE - left);
        let gap_x = (end.x - p.x) as i128 * HALF as i128 - 200 * left as i128;
        let gap_y = (end.y - p.y) as i128 * HALF as i128 - 107 * left as i128;
        assert!(0 <= gap_x && gap_x < HALF as i128);
        assert!(0 <= gap_y && gap_y < HALF as i128);
    }
}
