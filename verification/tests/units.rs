use storage_stat::units::{format_bytes_amount, format_count_amount};

#[test]
fn bytes_below_a_thousand_stay_in_bytes() {
    assert_eq!(format_bytes_amount(999), "999 b");
    assert_eq!(format_bytes_amount(0), "0 b");
    assert_eq!(format_bytes_amount(1), "1 b");
}

#[test]
fn bytes_of_exactly_a_thousand_are_not_promoted() {
    assert_eq!(format_bytes_amount(1000), "1000 b");
    assert_eq!(format_bytes_amount(1_000_000), "1000 KB");
    assert_eq!(format_bytes_amount(1_000_000_000), "1000 MB");
    assert_eq!(format_bytes_amount(1_000_000_000_000), "1000 GB");
}

#[test]
fn bytes_just_over_a_thousand_are_promoted() {
    assert_eq!(format_bytes_amount(1001), "1 KB");
    assert_eq!(format_bytes_amount(1_000_001), "1 MB");
    assert_eq!(format_bytes_amount(1_000_000_001), "1 GB");
    assert_eq!(format_bytes_amount(1_000_000_000_001), "1.0 TB");
}

#[test]
fn bytes_round_to_the_nearest_integer() {
    assert_eq!(format_bytes_amount(1500), "2 KB");
    assert_eq!(format_bytes_amount(1499), "1 KB");
    assert_eq!(format_bytes_amount(1501), "2 KB");
    assert_eq!(format_bytes_amount(999_499), "999 KB");
    assert_eq!(format_bytes_amount(999_500), "1000 KB");
    assert_eq!(format_bytes_amount(123_456_789), "123 MB");
}

#[test]
fn bytes_half_way_go_to_the_even_side() {
    assert_eq!(format_bytes_amount(2500), "2 KB");
    assert_eq!(format_bytes_amount(3500), "4 KB");
    assert_eq!(format_bytes_amount(2_500_000), "2 MB");
    assert_eq!(format_bytes_amount(2501), "3 KB");
}

#[test]
fn terabytes_have_one_decimal_digit() {
    assert_eq!(format_bytes_amount(1_500_000_000_000), "1.5 TB");
    assert_eq!(format_bytes_amount(1_540_000_000_000), "1.5 TB");
    assert_eq!(format_bytes_amount(1_560_000_000_000), "1.6 TB");
    assert_eq!(format_bytes_amount(2_000_000_000_000), "2.0 TB");
    assert_eq!(format_bytes_amount(999_960_000_000_000), "1000.0 TB");
}

#[test]
fn terabytes_are_the_last_unit() {
    assert_eq!(format_bytes_amount(5_000_000_000_000_000), "5000.0 TB");
    assert_eq!(format_bytes_amount(i64::MAX), "9223372.0 TB");
}

#[test]
fn negative_bytes_are_not_promoted() {
    assert_eq!(format_bytes_amount(-1), "-1 b");
    assert_eq!(format_bytes_amount(-5000), "-5000 b");
    assert_eq!(format_bytes_amount(i64::MIN), "-9223372036854775808 b");
}

#[test]
fn counts_below_a_thousand_have_no_suffix() {
    assert_eq!(format_count_amount(500), "500");
    assert_eq!(format_count_amount(0), "0");
    assert_eq!(format_count_amount(1000), "1000");
}

#[test]
fn counts_round_a_half_upwards() {
    assert_eq!(format_count_amount(2500), "3K");
    assert_eq!(format_count_amount(1500), "2K");
    assert_eq!(format_count_amount(2499), "2K");
    assert_eq!(format_count_amount(1001), "1K");
}

#[test]
fn counts_step_through_their_suffixes() {
    assert_eq!(format_count_amount(1_000_000), "1000K");
    assert_eq!(format_count_amount(1_000_001), "1M");
    assert_eq!(format_count_amount(7_300_000), "7M");
    assert_eq!(format_count_amount(1_000_000_001), "1B");
    assert_eq!(format_count_amount(5_000_000_000_000), "5000B");
}

#[test]
fn negative_counts_are_not_promoted() {
    assert_eq!(format_count_amount(-42), "-42");
    assert_eq!(format_count_amount(-2500), "-2500");
}
