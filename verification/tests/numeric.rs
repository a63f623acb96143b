use julia_screensaver::numeric::{div_toward_zero, isqrt, COORD_LIMIT, SCALE};

#[test]
fn scale_is_one_million() {
    assert_eq!(SCALE, 1_000_000);
    assert!(COORD_LIMIT > SCALE);
}

#[test]
fn division_rounds_toward_zero_on_both_sides() {
    assert_eq!(div_toward_zero(7, 2), 3);
    assert_eq!(div_toward_zero(-7, 2), -3);
    assert_eq!(div_toward_zero(6, 2), 3);
    assert_eq!(div_toward_zero(-6, 2), -3);
    assert_eq!(div_toward_zero(0, 5), 0);
    assert_eq!(div_toward_zero(1, 5), 0);
    assert_eq!(div_toward_zero(-1, 5), 0);
    assert_eq!(div_toward_zero(-999_999, 1_000_000), 0);
    assert_eq!(div_toward_zero(-1_000_000, 1_000_000), -1);
}

#[test]
fn division_is_odd_in_the_dividend() {
    for n in [0i128, 1, 5, 17, 999, 123_456_789] {
        for d in [1i128, 2, 3, 10, 1_000_000] {
            assert_eq!(div_toward_zero(-n, d), -div_toward_zero(n, d));
        }
    }
}

#[test]
fn isqrt_of_small_numbers() {
    assert_eq!(isqrt(0), 0);
    assert_eq!(isqrt(1), 1);
    assert_eq!(isqrt(2), 1);
    assert_eq!(isqrt(3), 1);
    assert_eq!(isqrt(4), 2);
    assert_eq!(isqrt(8), 2);
    assert_eq!(isqrt(9), 3);
    assert_eq!(isqrt(99), 9);
    assert_eq!(isqrt(100), 10);
}

#[test]
fn isqrt_of_large_numbers() {
    assert_eq!(isqrt(1_000_000_000_000), 1_000_000);
    assert_eq!(isqrt(999_999_999_999), 999_999);
    assert_eq!(isqrt(u64::MAX), 4_294_967_295);
    assert_eq!(isqrt(4_294_967_295 * 4_294_967_295), 4_294_967_295);
    assert_eq!(isqrt(4_294_967_295 * 4_294_967_295 - 1), 4_294_967_294);
}

#[test]
fn isqrt_brackets_its_argument() {
    for n in [5u64, 10, 26, 1_000, 65_535, 7_777_777, 333_299_955_600] {
        let r = isqrt(n);
        assert!(r * r <= n);
        assert!((r + 1) * (r + 1) > n);
    }
}
