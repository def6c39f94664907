use dotfield::dot::Dot;
use dotfield::field::{spawn_anchor, DotField, Viewport};
use dotfield::fixed::{Point, HALF, ONE};

const RADIUS: i64 = 50 * ONE;

fn linear(progress: i64) -> i64 {
    progress
}

fn window() -> Viewport {
    Viewport { width: 800, height: 600 }
}

fn all(field: &DotField) -> Vec<Dot> {
    let mut dots = Vec::new();
    for i in 0..field.len() {
        dots.push(field.dot(i));
    }
    dots
}

#[test]
fn spawn_anchor_is_a_fraction_of_the_viewport() {
    assert_eq!(spawn_anchor(window(), (0, 0)), Point::new(0, 0));
    assert_eq!(spawn_anchor(window(), (0x8000_0000, 0x4000_0000)), Point::new(400 * ONE, 150 * ONE));
    assert_eq!(
        spawn_anchor(window(), (u32::MAX, u32::MAX)),
        Point::new(800 * (ONE - 1), 600 * (ONE - 1))
    );
    assert_eq!(spawn_anchor(Viewport { width: 0, height: 0 }, (u32::MAX, 77)), Point::new(0, 0));
    assert_eq!(
        spawn_anchor(Viewport { width: u32::MAX, height: 1 }, (u32::MAX, 0x100)),
        Point::new(u32::MAX as i64 * (ONE - 1), 1)
    );
}

#[test]
fn new_field_is_empty() {
    assert_eq!(DotField::new().len(), 0);
}

#[test]
fn top_up_from_zero_reaches_the_target() {
    let mut rng = rand::thread_rng();
    for target in [0usize, 1, 3, 30, 200] {
        let mut field = DotField::new();
        field.top_up(target, window(), RADIUS, &linear, &mut rng);
        assert_eq!(field.len(), target);
        for dot in all(&field) {
            let keys = dot.curve().keys();
            assert_eq!(keys.len(), 3);
            assert_eq!((keys[0].t, keys[1].t, keys[2].t), (0, HALF, ONE));
            assert_eq!(dot.radius(), RADIUS);
            assert!(0 <= dot.anchor().x && dot.anchor().x < 800 * ONE);
            assert!(0 <= dot.anchor().y && dot.anchor().y < 600 * ONE);
            assert!(0 <= dot.progress() && dot.progress() < ONE);
        }
    }
}

#[test]
fn top_up_keeps_the_dots_that_are_there() {
    let mut rng = rand::thread_rng();
    let mut field = DotField::new();
    field.top_up(5, window(), RADIUS, &linear, &mut rng);
    let before = all(&field);
    field.top_up(8, window(), RADIUS, &linear, &mut rng);
    assert_eq!(field.len(), 8);
    assert_eq!(all(&field)[..5], before[..]);
}

#[test]
fn top_up_never_removes_a_dot() {
    let mut rng = rand::thread_rng();
    let mut field = DotField::new();
    field.top_up(6, window(), RADIUS, &linear, &mut rng);
    let before = all(&field);
    field.top_up(6, window(), RADIUS, &linear, &mut rng);
    assert_eq!(all(&field), before);
    field.top_up(2, window(), RADIUS, &linear, &mut rng);
    assert_eq!(all(&field), before);
    field.top_up(0, window(), RADIUS, &linear, &mut rng);
    assert_eq!(all(&field), before);
}

#[test]
fn top_up_spreads_the_anchors() {
    let mut rng = rand::thread_rng();
    let mut field = DotField::new();
    field.top_up(50, window(), RADIUS, &linear, &mut rng);
    let dots = all(&field);
    assert!(dots.iter().any(|d| d.anchor() != dots[0].anchor()));
    assert!(dots.iter().any(|d| d.progress() != dots[0].progress()));
}

#[test]
fn advance_all_steps_every_dot_once() {
    let mut rng = rand::thread_rng();
    let mut field = DotField::new();
    field.top_up(40, window(), RADIUS, &linear, &mut rng);
    let before = all(&field);
    let increment: u32 = 1_000_000;
    field.advance_all(increment, &linear, &mut rng);
    let after = all(&field);
    assert_eq!(after.len(), before.len());
    for (old, new) in before.iter().zip(after.iter()) {
        assert_eq!(new.anchor(), old.anchor());
        assert_eq!(new.radius(), old.radius());
        if old.progress() + increment as i64 >= ONE {
            assert_eq!(new.progress(), 0);
            assert_eq!(new.curve().keys()[0].position, old.curve().last().position);
            assert_eq!(new.position(), old.curve().last().position);
        } else {
            assert_eq!(new.progress(), old.progress() + increment as i64);
            assert_eq!(new.curve(), old.curve());
            assert_eq!(new.position(), old.curve().sample_clamped(new.progress()));
        }
    }
}

#[test]
fn advance_all_on_an_empty_field_does_nothing() {
    let mut rng = rand::thread_rng();
    let mut field = DotField::new();
    field.advance_all(HALF as u32, &linear, &mut rng);
    assert_eq!(field.len(), 0);
}

#[test]
fn three_dots_rotate_once_in_two_steps_of_one_half() {
    let mut rng = rand::thread_rng();
    let mut field = DotField::new();
    field.top_up(3, window(), RADIUS, &linear, &mut rng);
    assert_eq!(field.len(), 3);
    let start = all(&field);
    let mut rotations = [0usize; 3];
    for _ in 0..2 {
        let before = all(&field);
        field.top_up(3, window(), RADIUS, &linear, &mut rng);
        field.advance_all(HALF as u32, &linear, &mut rng);
        assert_eq!(field.len(), 3);
        for (i, old) in before.iter().enumerate() {
            if old.progress() + HALF >= ONE {
                rotations[i] += 1;
                assert_eq!(field.dot(i).progress(), 0);
            } else {
                assert_eq!(field.dot(i).progress(), old.progress() + HALF);
            }
        }
    }
    assert_eq!(rotations, [1, 1, 1]);
    for (i, first) in start.iter().enumerate() {
        let expected = if first.progress() >= HALF { HALF } else { 0 };
        assert_eq!(field.dot(i).progress(), expected);
    }
}
