use storage_stat::decimal::{push_decimal, push_digits};
use storage_stat::units::{push_bytes_amount, push_count_amount};

fn decimal(n: i128) -> String {
    let mut out = String::new();
    push_decimal(&mut out, n);
    out
}

#[test]
fn digits_of_small_numbers() {
    for n in 0..=1234u128 {
        let mut out = String::new();
        push_digits(&mut out, n);
        assert_eq!(out, n.to_string());
    }
}

#[test]
fn digits_of_the_largest_number() {
    let mut out = String::new();
    push_digits(&mut out, u128::MAX);
    assert_eq!(out, "340282366920938463463374607431768211455");
}

#[test]
fn digits_are_appended_to_what_is_there() {
    let mut out = String::from("n = ");
    push_digits(&mut out, 10);
    push_decimal(&mut out, -20);
    assert_eq!(out, "n = 10-20");
}

#[test]
fn decimal_of_negative_numbers() {
    assert_eq!(decimal(-1), "-1");
    assert_eq!(decimal(-1000), "-1000");
    assert_eq!(decimal(0), "0");
    assert_eq!(decimal(i128::MIN), "-170141183460469231731687303715884105728");
    assert_eq!(decimal(i128::MAX), "170141183460469231731687303715884105727");
}

#[test]
fn amounts_wider_than_sixty_four_bits() {
    let mut out = String::new();
    push_bytes_amount(&mut out, i128::MAX);
    assert_eq!(out, "170141183460469231731687303.7 TB");
    let mut out = String::new();
    push_bytes_amount(&mut out, i128::MIN);
    assert_eq!(out, "-170141183460469231731687303715884105728 b");
    let mut out = String::from("items: ");
    push_count_amount(&mut out, 18_446_744_073_709_551_616);
    assert_eq!(out, "items: 18446744074B");
}

#[test]
fn terabyte_ties_go_to_the_even_tenth() {
    let mut out = String::new();
    push_bytes_amount(&mut out, 1_050_000_000_000);
    assert_eq!(out, "1.0 TB");
    let mut out = String::new();
    push_bytes_amount(&mut out, 1_150_000_000_000);
    assert_eq!(out, "1.2 TB");
    let mut out = String::new();
    push_bytes_amount(&mut out, 1_950_000_000_000);
    assert_eq!(out, "2.0 TB");
}
