use particle_burst::geometry::{spawn_position, unit_direction, BurstSource, FULL_TURN};
use particle_burst::sampling::{sample_float, sample_int, RandomSource, ScriptedRandom};

#[test]
fn sample_float_offsets_from_min() {
    assert_eq!(sample_float(-250, 250, 1234), -133);
    assert_eq!(sample_float(0, FULL_TURN, 7000), 0);
    assert_eq!(sample_float(0, FULL_TURN, 7500), 3141);
    assert_eq!(sample_float(0, 2000, 1501), 1002);
    assert_eq!(sample_float(0, 1000, 999), 999);
    assert_eq!(sample_float(0, 1000, 1000), 0);
}

#[test]
fn sample_float_empty_span_gives_min() {
    assert_eq!(sample_float(5, 5, 99), 5);
    assert_eq!(sample_float(-7, -7, u32::MAX), -7);
}

#[test]
fn sample_float_inverted_range_stays_anchored_at_min() {
    // The span is taken as |max - min|, so an inverted range counts up from min.
    assert_eq!(sample_float(10, 0, 523), 15);
}

#[test]
fn sample_float_stays_in_range() {
    let ranges = [(0, 1), (-500, 500), (1000, 2000), (i32::MIN, i32::MAX), (3, 3)];
    for (min, max) in ranges {
        for draw in [0u32, 1, 2, 999, 1000, 65535, 123456789, u32::MAX] {
            let r = sample_float(min, max, draw);
            assert!(min as i64 <= r && r <= max as i64);
        }
    }
}

#[test]
fn sample_float_has_at_most_a_thousand_steps() {
    let mut seen = std::collections::BTreeSet::new();
    for draw in 0..5000u32 {
        let r = sample_float(0, 2000, draw);
        assert_eq!(r % 2, 0);
        seen.insert(r);
    }
    assert_eq!(seen.len(), 1000);
}

#[test]
fn sample_int_half_open_range() {
    assert_eq!(sample_int(2, 6, 7), 5);
    assert_eq!(sample_int(2, 6, 8), 2);
    for draw in [0u32, 1, 5, 77, u32::MAX] {
        let r = sample_int(10, 13, draw);
        assert!(10 <= r && r < 13);
    }
}

#[test]
fn sample_int_empty_or_inverted_gives_min() {
    assert_eq!(sample_int(5, 5, 3), 5);
    assert_eq!(sample_int(6, 2, 3), 6);
}

#[test]
fn scripted_source_cycles() {
    let mut rng = ScriptedRandom::new(vec![1, 2, 3]);
    assert_eq!(rng.next_u32(), 1);
    assert_eq!(rng.next_u32(), 2);
    assert_eq!(rng.next_u32(), 3);
    assert_eq!(rng.next_u32(), 1);
    assert_eq!(rng.draw(), 2);
}

#[test]
fn unit_direction_on_the_axes() {
    assert_eq!(unit_direction(0), (1000, 0));
    assert_eq!(unit_direction(1571), (0, 1000));
    assert_eq!(unit_direction(3142), (-1000, 0));
}

#[test]
fn unit_direction_never_longer_than_unit() {
    for angle in 0..6283i64 {
        let (c, s) = unit_direction(angle);
        assert!(c * c + s * s <= 1_000_000);
        assert!(c * c + s * s >= 990_000);
    }
}

#[test]
fn point_source_is_exact() {
    let src = BurstSource::Point(1500, -2500);
    assert_eq!(spawn_position(&src, 7, 9), (1500, -2500));
}

#[test]
fn circle_positions_stay_within_radius() {
    let src = BurstSource::Circle { center: (1000, 2000), radius: 1000 };
    for d0 in (0u32..7000).step_by(37) {
        for d1 in [0u32, 1, 250, 500, 999, 1000, 4321] {
            let (x, y) = spawn_position(&src, d0, d1);
            let (dx, dy) = (x - 1000, y - 2000);
            assert!(dx * dx + dy * dy <= 1000 * 1000);
        }
    }
}

#[test]
fn circle_position_follows_angle_and_distance() {
    let src = BurstSource::Circle { center: (1000, 2000), radius: 1000 };
    // angle 0 points along x; the distance is 500.
    assert_eq!(spawn_position(&src, 0, 500), (1500, 2000));
    // a quarter turn points along y.
    assert_eq!(spawn_position(&src, 250, 500), (1000, 2499));
}

#[test]
fn rectangle_positions_stay_inside() {
    let src = BurstSource::Rectangle { min: (-2000, 10), max: (2000, 500) };
    for d0 in [0u32, 1, 3999, 4000, 4001, 99999, u32::MAX] {
        for d1 in [0u32, 489, 490, 491, u32::MAX] {
            let (x, y) = spawn_position(&src, d0, d1);
            assert!(-2000 <= x && x <= 2000);
            assert!(10 <= y && y <= 500);
        }
    }
    assert_eq!(spawn_position(&src, 4001, 491), (-1996, 250));
}
