use barbells::angle::{
    normalize, sin_cos, EIGHTH_TURN, FULL_TURN, HALF_TURN, ONE, QUARTER_TURN,
};

#[test]
fn turn_constants_divide_the_full_turn() {
    assert_eq!(FULL_TURN, 36_000);
    assert_eq!(HALF_TURN * 2, FULL_TURN);
    assert_eq!(QUARTER_TURN * 4, FULL_TURN);
    assert_eq!(EIGHTH_TURN * 8, FULL_TURN);
    assert_eq!(ONE, 1_000_000_000);
}

#[test]
fn normalize_brings_angles_into_one_turn() {
    assert_eq!(normalize(0), 0);
    assert_eq!(normalize(35_999), 35_999);
    assert_eq!(normalize(36_000), 0);
    assert_eq!(normalize(36_036), 36);
    assert_eq!(normalize(-1), 35_999);
    assert_eq!(normalize(-36), 35_964);
    assert_eq!(normalize(-36_000), 0);
    assert_eq!(normalize(-72_001), 35_999);
    assert_eq!(normalize(i32::MAX), 2_147_483_647 % 36_000);
    assert_eq!(normalize(i32::MIN), 36_000 - 2_147_483_648i64.rem_euclid(36_000) as i32);
}

#[test]
fn sine_and_cosine_are_exact_at_quarter_turns() {
    assert_eq!(sin_cos(0), (0, ONE));
    assert_eq!(sin_cos(9_000), (ONE, 0));
    assert_eq!(sin_cos(18_000), (0, -ONE));
    assert_eq!(sin_cos(27_000), (-ONE, 0));
    assert_eq!(sin_cos(36_000), (0, ONE));
    assert_eq!(sin_cos(-9_000), (-ONE, 0));
}

#[test]
fn sine_and_cosine_at_known_angles() {
    assert_eq!(sin_cos(3_000), (499_999_999, 866_025_405));
    assert_eq!(sin_cos(4_500), (707_106_783, 707_106_783));
    assert_eq!(sin_cos(6_000), (866_025_405, 499_999_999));
    assert_eq!(sin_cos(12_000), (866_025_405, -499_999_999));
    assert_eq!(sin_cos(13_500), (707_106_783, -707_106_783));
    assert_eq!(sin_cos(22_500), (-707_106_783, -707_106_783));
    assert_eq!(sin_cos(31_500), (-707_106_783, 707_106_783));
    assert_eq!(sin_cos(36), (6_283_143, 999_980_262));
    assert_eq!(sin_cos(35_964), (-6_283_143, 999_980_262));
    assert_eq!(sin_cos(700), (121_869_342, 992_546_152));
    assert_eq!(sin_cos(1), (174_531, 999_999_986));
    assert_eq!(sin_cos(35_999), (-174_531, 999_999_986));
}

#[test]
fn sine_and_cosine_agree_with_floating_point() {
    let mut angle = 0;
    while angle < FULL_TURN {
        let (s, c) = sin_cos(angle);
        let radians = (angle as f64) * std::f64::consts::PI / 18_000.0;
        assert!((s as f64 / ONE as f64 - radians.sin()).abs() < 1e-8, "sine of {}", angle);
        assert!((c as f64 / ONE as f64 - radians.cos()).abs() < 1e-8, "cosine of {}", angle);
        angle += 1;
    }
}

#[test]
fn sine_and_cosine_never_exceed_one() {
    let mut angle = -FULL_TURN;
    while angle < 2 * FULL_TURN {
        let (s, c) = sin_cos(angle);
        assert!(-ONE <= s && s <= ONE);
        assert!(-ONE <= c && c <= ONE);
        angle += 7;
    }
}

#[test]
fn sine_and_cosine_repeat_after_a_full_turn() {
    for angle in [-50_000, -36_000, -1, 0, 1, 36, 4_499, 4_500, 4_501, 9_000, 20_000, 35_999] {
        assert_eq!(sin_cos(angle + FULL_TURN), sin_cos(angle));
        assert_eq!(sin_cos(angle - FULL_TURN), sin_cos(angle));
        assert_eq!(sin_cos(normalize(angle)), sin_cos(angle));
    }
}

#[test]
fn cosine_is_the_sine_a_quarter_turn_on() {
    for angle in [-9_001, 0, 1, 36, 700, 4_500, 8_999, 9_000, 17_000, 26_999, 35_999] {
        assert_eq!(sin_cos(angle).1, sin_cos(angle + QUARTER_TURN).0);
    }
}

#[test]
fn sine_and_cosine_work_at_the_limits_of_the_angle() {
    assert_eq!(sin_cos(i32::MAX), sin_cos(normalize(i32::MAX)));
    assert_eq!(sin_cos(i32::MIN), sin_cos(normalize(i32::MIN)));
}
