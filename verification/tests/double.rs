use storage_stat::double::double_to_i64;

fn whole(x: f64) -> i64 {
    double_to_i64(x.to_bits())
}

#[test]
fn whole_numbers_are_kept() {
    assert_eq!(whole(0.0), 0);
    assert_eq!(whole(1.0), 1);
    assert_eq!(whole(3000.0), 3000);
    assert_eq!(whole(-17.0), -17);
    assert_eq!(whole(9_007_199_254_740_992.0), 9_007_199_254_740_992);
    assert_eq!(whole(4_611_686_018_427_387_904.0), 4_611_686_018_427_387_904);
}

#[test]
fn what_is_behind_the_point_is_dropped() {
    assert_eq!(whole(0.5), 0);
    assert_eq!(whole(0.999_999), 0);
    assert_eq!(whole(1.999_999), 1);
    assert_eq!(whole(3000.7), 3000);
    assert_eq!(whole(123_456_789.987), 123_456_789);
    assert_eq!(whole(5e-324), 0);
}

#[test]
fn negative_numbers_are_cut_towards_zero() {
    assert_eq!(whole(-0.0), 0);
    assert_eq!(whole(-0.5), 0);
    assert_eq!(whole(-1.5), -1);
    assert_eq!(whole(-3000.7), -3000);
}

#[test]
fn numbers_out_of_range_go_to_the_nearest_integer() {
    assert_eq!(whole(1e300), i64::MAX);
    assert_eq!(whole(-1e300), i64::MIN);
    assert_eq!(whole(9_223_372_036_854_775_808.0), i64::MAX);
    assert_eq!(whole(-9_223_372_036_854_775_808.0), i64::MIN);
    assert_eq!(whole(9_223_372_036_854_774_784.0), 9_223_372_036_854_774_784);
    assert_eq!(whole(f64::INFINITY), i64::MAX);
    assert_eq!(whole(f64::NEG_INFINITY), i64::MIN);
}

#[test]
fn what_is_no_number_gives_zero() {
    assert_eq!(whole(f64::NAN), 0);
    assert_eq!(whole(-f64::NAN), 0);
}

#[test]
fn agrees_with_the_cast_of_the_language() {
    let samples = [
        0.1, 1.0, 2.5, 1023.999, 1024.0, 65_535.5, 1e9, 1.5e12, 2.0e15, 4.5e15, 9.0e15, 1.0e16,
        3.3e18, 9.2e18, 9.3e18, 1e19, -2.5, -1e9, -9.2e18, -9.3e18,
    ];
    for x in samples {
        assert_eq!(whole(x), x as i64);
    }
}
