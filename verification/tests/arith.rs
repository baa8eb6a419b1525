use barbells::arith::{divide_towards_zero, root_ceiling};

#[test]
fn root_ceiling_of_small_numbers() {
    assert_eq!(root_ceiling(0), 0);
    assert_eq!(root_ceiling(1), 1);
    assert_eq!(root_ceiling(2), 2);
    assert_eq!(root_ceiling(3), 2);
    assert_eq!(root_ceiling(4), 2);
    assert_eq!(root_ceiling(5), 3);
    assert_eq!(root_ceiling(99), 10);
    assert_eq!(root_ceiling(100), 10);
    assert_eq!(root_ceiling(101), 11);
}

#[test]
fn root_ceiling_of_large_numbers() {
    assert_eq!(root_ceiling(10_000_000_000_000_000), 100_000_000);
    assert_eq!(root_ceiling(10_000_000_000_000_001), 100_000_001);
    assert_eq!(root_ceiling(1 << 63), 3_037_000_500);
    assert_eq!(root_ceiling(u64::MAX), 4_294_967_296);
    assert_eq!(root_ceiling(4_294_967_295 * 4_294_967_295), 4_294_967_295);
    assert_eq!(root_ceiling(4_294_967_295 * 4_294_967_295 + 1), 4_294_967_296);
}

#[test]
fn root_ceiling_is_the_least_root() {
    for n in 0u64..5_000 {
        let r = root_ceiling(n);
        assert!(r * r >= n);
        assert!(r == 0 || (r - 1) * (r - 1) < n);
    }
}

#[test]
fn division_rounds_towards_zero() {
    assert_eq!(divide_towards_zero(9045, 10), 904);
    assert_eq!(divide_towards_zero(-9045, 10), -904);
    assert_eq!(divide_towards_zero(-9, 10), 0);
    assert_eq!(divide_towards_zero(9, 10), 0);
    assert_eq!(divide_towards_zero(-10, 10), -1);
    assert_eq!(divide_towards_zero(0, 7), 0);
    assert_eq!(divide_towards_zero(i64::MIN, 1), i64::MIN);
    assert_eq!(divide_towards_zero(i64::MAX, i64::MAX), 1);
}
