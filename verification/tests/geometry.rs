use barbells::geometry::{clamp_length, place, rotate, squared_distance, Vector2};

fn v(x: i32, y: i32) -> Vector2 {
    Vector2 { x, y }
}

#[test]
fn rotation_by_quarter_turns_is_exact() {
    assert_eq!(rotate(v(3000, 4000), 0), v(3000, 4000));
    assert_eq!(rotate(v(3000, 4000), 9_000), v(-4000, 3000));
    assert_eq!(rotate(v(3000, 4000), 18_000), v(-3000, -4000));
    assert_eq!(rotate(v(3000, 4000), 27_000), v(4000, -3000));
    assert_eq!(rotate(v(3000, 4000), 36_000), v(3000, 4000));
    assert_eq!(rotate(v(3000, 4000), -9_000), v(4000, -3000));
}

#[test]
fn rotation_by_other_angles_rounds_to_the_nearest_unit() {
    // cos 30 = 0.866025..., sin 30 = 0.5
    assert_eq!(rotate(v(1000, 0), 3_000), v(866, 500));
    // (3000 - 4000) / sqrt 2 = -707.1, (3000 + 4000) / sqrt 2 = 4949.7
    assert_eq!(rotate(v(3000, 4000), 4_500), v(-707, 4950));
    assert_eq!(rotate(v(75_000, 15_000), 4_500), v(42_426, 63_640));
    assert_eq!(rotate(v(-6250, 12_500), 700), v(-7727, 11_645));
    assert_eq!(rotate(v(-75_000, -15_000), 36), v(-74_904, -15_471));
    // Halves round away from zero: 1 / sqrt 2 = 0.707 rounds to 1.
    assert_eq!(rotate(v(1, 0), 4_500), v(1, 1));
    assert_eq!(rotate(v(1, 1), 4_500), v(0, 1));
    assert_eq!(rotate(v(-1, -1), 4_500), v(0, -1));
}

#[test]
fn rotation_repeats_after_a_full_turn() {
    for angle in [-36_036, -700, 0, 36, 700, 4_500, 12_345, 35_999] {
        for p in [v(1000, 0), v(-6250, 12_500), v(75_000, -15_000)] {
            assert_eq!(rotate(p, angle + 36_000), rotate(p, angle));
            assert_eq!(rotate(p, angle - 36_000), rotate(p, angle));
        }
    }
}

#[test]
fn rotation_of_opposite_vectors_is_opposite() {
    for angle in [1, 36, 700, 4_500, 12_345, 35_999] {
        let a = rotate(v(75_000, 15_000), angle);
        let b = rotate(v(-75_000, -15_000), angle);
        assert_eq!((a.x, a.y), (-b.x, -b.y));
    }
}

#[test]
fn place_turns_then_translates() {
    assert_eq!(place(v(400_000, 300_000), 0, v(6250, 12_500)), v(406_250, 312_500));
    assert_eq!(place(v(400_000, 300_000), 4_500, v(6250, 12_500)), v(395_581, 313_258));
    assert_eq!(place(v(100_000, 200_000), 9_000, v(-75_000, 15_000)), v(85_000, 125_000));
}

#[test]
fn clamp_keeps_what_is_short_enough() {
    assert_eq!(clamp_length(v(6000, 8000), 10_000), v(6000, 8000));
    assert_eq!(clamp_length(v(0, 0), 10_000), v(0, 0));
    assert_eq!(clamp_length(v(-3, 4), 5), v(-3, 4));
    assert_eq!(clamp_length(v(0, 0), 0), v(0, 0));
}

#[test]
fn clamp_scales_what_is_too_long() {
    assert_eq!(clamp_length(v(0, -11_000), 10_000), v(0, -10_000));
    assert_eq!(clamp_length(v(9500, 9500), 10_000), v(7070, 7070));
    assert_eq!(clamp_length(v(6001, 8000), 10_000), v(6000, 7999));
    assert_eq!(clamp_length(v(-7000, 7500), 10_000), v(-6822, 7309));
    assert_eq!(clamp_length(v(5, 5), 0), v(0, 0));
}

#[test]
fn clamp_never_exceeds_the_limit() {
    let limit: i64 = 10_000;
    for x in (-12_000..=12_000).step_by(375) {
        for y in (-12_000..=12_000).step_by(375) {
            let c = clamp_length(v(x, y), limit as i32);
            let len2 = (c.x as i64) * (c.x as i64) + (c.y as i64) * (c.y as i64);
            assert!(len2 <= limit * limit, "({}, {}) gave ({}, {})", x, y, c.x, c.y);
        }
    }
}

#[test]
fn clamp_works_at_the_limits_of_the_coordinates() {
    assert_eq!(clamp_length(v(i32::MAX, i32::MAX), 10_000), v(7071, 7071));
    assert_eq!(clamp_length(v(i32::MIN, 0), 1), v(-1, 0));
    assert_eq!(
        clamp_length(v(i32::MIN, i32::MIN), i32::MAX),
        v(-1_518_500_249, -1_518_500_249)
    );
}

#[test]
fn squared_distance_is_exact() {
    assert_eq!(squared_distance(v(0, 0), v(3, 4)), 25);
    assert_eq!(squared_distance(v(3, 4), v(0, 0)), 25);
    assert_eq!(squared_distance(v(-1, -1), v(-1, -1)), 0);
    assert_eq!(squared_distance(v(400_000, 300_000), v(150_000, 300_000)), 62_500_000_000);
    let side: i128 = (i32::MAX as i128) - (i32::MIN as i128);
    assert_eq!(
        squared_distance(v(i32::MIN, i32::MIN), v(i32::MAX, i32::MAX)),
        2 * side * side
    );
}
