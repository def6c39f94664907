use dotfield::fixed::{
    interpolated, saturating_negation, saturating_sum, scaled, unit_from_word, Point, COORD_MAX,
    HALF, ONE,
};

#[test]
fn constants_are_powers_of_two() {
    assert_eq!(ONE, 1i64 << 24);
    assert_eq!(HALF, 1i64 << 23);
    assert_eq!(HALF * 2, ONE);
    assert_eq!(COORD_MAX, 1i64 << 60);
}

#[test]
fn unit_keeps_the_upper_24_bits() {
    assert_eq!(unit_from_word(0), 0);
    assert_eq!(unit_from_word(0xFF), 0);
    assert_eq!(unit_from_word(0x100), 1);
    assert_eq!(unit_from_word(0x8000_0000), HALF);
    assert_eq!(unit_from_word(0xCCCC_CC00), 13_421_772);
    assert_eq!(unit_from_word(u32::MAX), ONE - 1);
}

#[test]
fn unit_matches_the_float_draw() {
    // The fraction is the numerator of the float in [0, 1) that the same word gives.
    for word in [0u32, 1, 0x100, 0x1234_5678, 0x8000_0000, 0xFFFF_FF00, u32::MAX] {
        let float_draw = (word >> 8) as f32 * (1.0 / 16_777_216.0);
        assert_eq!(unit_from_word(word) as f32 / 16_777_216.0, float_draw);
        assert!(float_draw < 1.0);
    }
}

#[test]
fn scaled_rounds_down() {
    assert_eq!(scaled(50 * ONE, HALF), 25 * ONE);
    assert_eq!(scaled(50 * ONE, 0), 0);
    assert_eq!(scaled(50 * ONE, ONE), 50 * ONE);
    assert_eq!(scaled(50 * ONE, ONE - 1), 838_860_750);
    assert_eq!(scaled(3, HALF), 1);
    assert_eq!(scaled(1, ONE - 1), 0);
    assert_eq!(scaled(0, ONE - 1), 0);
    assert_eq!(scaled(COORD_MAX, ONE), COORD_MAX);
    assert_eq!(scaled(i64::MAX, ONE), i64::MAX);
    assert_eq!(scaled(i64::MAX, HALF), i64::MAX / 2);
}

#[test]
fn lerp_meets_both_ends() {
    assert_eq!(interpolated(-7, 1000, 0, HALF), -7);
    assert_eq!(interpolated(-7, 1000, HALF, HALF), 1000);
    assert_eq!(interpolated(1000, -7, 0, HALF), 1000);
    assert_eq!(interpolated(1000, -7, HALF, HALF), -7);
}

#[test]
fn lerp_rounds_down() {
    assert_eq!(interpolated(0, 100, HALF / 2, HALF), 50);
    assert_eq!(interpolated(0, 1, HALF / 2, HALF), 0);
    assert_eq!(interpolated(0, -1, HALF / 2, HALF), -1);
    assert_eq!(interpolated(0, -3, 1, HALF), -1);
    assert_eq!(interpolated(7, 10, HALF / 3, HALF), 7);
    assert_eq!(interpolated(10, 7, HALF / 3, HALF), 9);
    assert_eq!(interpolated(0, 9, 1, 3), 3);
    assert_eq!(interpolated(0, 10, 2, 3), 6);
    assert_eq!(interpolated(0, -10, 2, 3), -7);
}

#[test]
fn lerp_spans_the_whole_range() {
    assert_eq!(interpolated(i64::MIN, i64::MAX, HALF / 2, HALF), -1);
    assert_eq!(interpolated(i64::MAX, i64::MIN, HALF / 2, HALF), -1);
    assert_eq!(interpolated(i64::MIN, i64::MAX, HALF, HALF), i64::MAX);
    assert_eq!(interpolated(i64::MAX, i64::MIN, HALF, HALF), i64::MIN);
    assert_eq!(interpolated(i64::MIN, i64::MAX, i64::MAX, i64::MAX), i64::MAX);
    assert_eq!(interpolated(i64::MAX, i64::MIN, i64::MAX - 1, i64::MAX), i64::MIN + 2);
}

#[test]
fn lerp_stays_between_its_ends() {
    let ends = [(-5i64, 17i64), (17, -5), (0, 0), (i64::MIN, 3), (3, i64::MAX)];
    for (a, b) in ends {
        for num in [0, 1, 2, HALF / 3, HALF / 2, HALF - 1, HALF] {
            let v = interpolated(a, b, num, HALF);
            assert!((a <= v && v <= b) || (b <= v && v <= a));
        }
    }
}

#[test]
fn saturating_sum_holds_at_the_ends() {
    assert_eq!(saturating_sum(1, 2), 3);
    assert_eq!(saturating_sum(-5, 2), -3);
    assert_eq!(saturating_sum(i64::MAX, 1), i64::MAX);
    assert_eq!(saturating_sum(i64::MAX, i64::MAX), i64::MAX);
    assert_eq!(saturating_sum(i64::MIN, -1), i64::MIN);
    assert_eq!(saturating_sum(i64::MIN, i64::MAX), -1);
}

#[test]
fn saturating_negation_holds_at_the_bottom() {
    assert_eq!(saturating_negation(5), -5);
    assert_eq!(saturating_negation(-5), 5);
    assert_eq!(saturating_negation(0), 0);
    assert_eq!(saturating_negation(i64::MAX), -i64::MAX);
    assert_eq!(saturating_negation(i64::MIN), i64::MAX);
}

#[test]
fn point_new_keeps_its_coordinates() {
    let p = Point::new(3, -4);
    assert_eq!(p.x, 3);
    assert_eq!(p.y, -4);
    assert_eq!(p, Point { x: 3, y: -4 });
}
