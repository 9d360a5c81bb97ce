//! Abbreviation of byte and item counts in steps of a thousand.
//!
//! An amount is divided by a thousand, and moved to the next unit, for as long
//! as it is greater than a thousand and a further unit exists. An amount of
//! exactly one thousand stays in its unit. The quotient is taken exactly, as a
//! fraction, and rounded once, when it is written down.

use vstd::prelude::*;
use crate::decimal::{decimal, digits, push_decimal, push_digits};

verus! {

/// Index of the last byte unit, the terabyte.
pub const LAST_BYTES_UNIT: u8 = 4;

/// Index of the last count suffix, the billion.
pub const LAST_COUNT_UNIT: u8 = 3;

/// One tenth of a terabyte, in bytes.
pub const TENTH_OF_TERABYTE: u128 = 100_000_000_000;

/// A thousand to the power `k`.
pub open spec fn pow1000(k: nat) -> int
    decreases k,
{
    if k == 0 {
        1
    } else {
        1000 * pow1000((k - 1) as nat)
    }
}

/// The unit reached from unit `k`: the next one for as long as `amount`,
/// counted in the current unit, is greater than a thousand and the current
/// unit is not the last.
pub open spec fn promotions_from(amount: int, k: nat, last: nat) -> nat
    decreases last - k,
{
    if k < last && amount > 1000 * pow1000(k) {
        promotions_from(amount, k + 1, last)
    } else {
        k
    }
}

/// The unit in which `amount` is written, where units are numbered from zero
/// and `last` is the largest.
pub open spec fn promotions(amount: int, last: nat) -> nat {
    promotions_from(amount, 0, last)
}

/// The integer nearest to `num / den`; a quotient half way between two
/// integers goes to the even one.
pub open spec fn round_half_even(num: int, den: int) -> int
    recommends
        den > 0,
{
    let q = num / den;
    let r = num % den;
    if 2 * r < den {
        q
    } else if 2 * r > den {
        q + 1
    } else if q % 2 == 0 {
        q
    } else {
        q + 1
    }
}

/// The integer nearest to `num / den`; a quotient half way between two
/// integers goes to the one farther from zero.
pub open spec fn round_half_away(num: int, den: int) -> int
    recommends
        den > 0,
{
    let magnitude = if num < 0 {
        -num
    } else {
        num
    };
    let q = magnitude / den;
    let nearest = if 2 * (magnitude % den) >= den {
        q + 1
    } else {
        q
    };
    if num < 0 {
        -nearest
    } else {
        nearest
    }
}

/// Name of byte unit `k`.
pub open spec fn bytes_unit(k: nat) -> Seq<char> {
    if k == 0 {
        "b"@
    } else if k == 1 {
        "KB"@
    } else if k == 2 {
        "MB"@
    } else if k == 3 {
        "GB"@
    } else {
        "TB"@
    }
}

/// Suffix of count unit `k`.
pub open spec fn count_suffix(k: nat) -> Seq<char> {
    if k == 0 {
        ""@
    } else if k == 1 {
        "K"@
    } else if k == 2 {
        "M"@
    } else {
        "B"@
    }
}

/// A number of tenths written with one digit behind the point.
pub open spec fn one_decimal(tenths: nat) -> Seq<char> {
    digits(tenths / 10) + "."@ + digits(tenths % 10)
}

/// The text for a number of bytes: the amount in its unit, a space and the
/// unit's name. Below the terabyte the amount is rounded to an integer; in
/// terabytes it is rounded to tenths and written with one decimal digit.
pub open spec fn bytes_text(amount: int) -> Seq<char> {
    let k = promotions(amount, LAST_BYTES_UNIT as nat);
    if k < LAST_BYTES_UNIT {
        decimal(round_half_even(amount, pow1000(k))) + " "@ + bytes_unit(k)
    } else {
        one_decimal(round_half_even(amount, TENTH_OF_TERABYTE as int) as nat) + " "@ + bytes_unit(k)
    }
}

/// The text for a number of items: the amount in its unit, rounded to an
/// integer, and the unit's suffix with nothing between them.
pub open spec fn count_text(amount: int) -> Seq<char> {
    let k = promotions(amount, LAST_COUNT_UNIT as nat);
    decimal(round_half_away(amount, pow1000(k))) + count_suffix(k)
}

/// The powers of a thousand that the units use.
pub proof fn lemma_pow1000_values()
    ensures
        pow1000(0) == 1,
        pow1000(1) == 1_000,
        pow1000(2) == 1_000_000,
        pow1000(3) == 1_000_000_000,
        pow1000(4) == 1_000_000_000_000,
{
    reveal_with_fuel(pow1000, 5);
}

/// The unit of an amount is the first that holds it in at most a thousand,
/// or the last unit where none does.
pub proof fn lemma_promotions_is_least(amount: int, last: nat)
    ensures
        promotions(amount, last) <= last,
        promotions(amount, last) < last ==> amount <= 1000 * pow1000(promotions(amount, last)),
        forall|k: nat| k < promotions(amount, last) ==> amount > 1000 * #[trigger] pow1000(k),
{
    lemma_promotions_from(amount, 0, last);
}

/// The unit reached from unit `k` is the first from `k` on that holds the
/// amount in at most a thousand, or the last unit.
proof fn lemma_promotions_from(amount: int, k: nat, last: nat)
    requires
        k <= last,
    ensures
        k <= promotions_from(amount, k, last) <= last,
        promotions_from(amount, k, last) < last ==> amount <= 1000 * pow1000(
            promotions_from(amount, k, last),
        ),
        forall|j: nat|
            k <= j < promotions_from(amount, k, last) ==> amount > 1000 * #[trigger] pow1000(j),
    decreases last - k,
{
    if k < last && amount > 1000 * pow1000(k) {
        lemma_promotions_from(amount, k + 1, last);
    }
}

/// An amount of at most a thousand, zero and the negative ones among them,
/// is written out in the first unit.
pub proof fn lemma_small_amounts_are_written_out(amount: int)
    requires
        amount <= 1000,
    ensures
        bytes_text(amount) == decimal(amount) + " "@ + "b"@,
        count_text(amount) == decimal(amount),
{
    lemma_pow1000_values();
    reveal_strlit("");
    assert(decimal(amount) + ""@ =~= decimal(amount));
}

/// Rounding gives a nearest integer: the quotient and the rounded value are
/// at most a half apart. Where they are a half apart, the one rounding
/// gives the even neighbour; the other gives the greater neighbour of a
/// quotient that is not negative, and treats a negative quotient as the
/// mirror image of a positive one.
pub proof fn lemma_rounding_is_nearest(num: int, den: int)
    requires
        den > 0,
    ensures
        -den <= 2 * (num - round_half_even(num, den) * den) <= den,
        -den <= 2 * (num - round_half_away(num, den) * den) <= den,
        2 * (num % den) == den ==> round_half_even(num, den) % 2 == 0,
        2 * (num % den) == den && num >= 0 ==> round_half_away(num, den) * den > num,
        round_half_away(-num, den) == -round_half_away(num, den),
{
    let magnitude = if num < 0 {
        -num
    } else {
        num
    };
    assert(num == (num / den) * den + num % den && 0 <= num % den < den) by (nonlinear_arith)
        requires
            den > 0,
    ;
    assert(magnitude == (magnitude / den) * den + magnitude % den && 0 <= magnitude % den < den)
        by (nonlinear_arith)
        requires
            den > 0,
    ;
    assert((num / den + 1) * den == (num / den) * den + den) by (nonlinear_arith);
    assert((magnitude / den + 1) * den == (magnitude / den) * den + den) by (nonlinear_arith);
    assert((-(magnitude / den)) * den == -((magnitude / den) * den)) by (nonlinear_arith);
    assert((-(magnitude / den + 1)) * den == -((magnitude / den + 1) * den)) by (nonlinear_arith);
}

/// Finds the unit of `amount`, and how many of the first unit one of it
/// holds.
fn unit_of(amount: i128, last: u8) -> (r: (u8, u128))
    requires
        last <= LAST_BYTES_UNIT,
    ensures
        r.0 == promotions(amount as int, last as nat),
        r.1 == pow1000(r.0 as nat),
        r.0 <= last,
        r.0 > 0 ==> amount > 1000,
{
    let mut k: u8 = 0;
    let mut scale: i128 = 1;
    proof {
        lemma_pow1000_values();
    }
    while k < last && amount > 1000 * scale
        invariant
            last <= LAST_BYTES_UNIT,
            k <= last,
            scale == pow1000(k as nat),
            0 < scale <= pow1000(LAST_BYTES_UNIT as nat) == 1_000_000_000_000,
            k > 0 ==> amount > 1000,
            promotions_from(amount as int, k as nat, last as nat) == promotions(
                amount as int,
                last as nat,
            ),
        decreases last - k,
    {
        proof {
            lemma_pow1000_values();
        }
        scale = scale * 1000;
        k = k + 1;
    }
    (k, scale as u128)
}

/// Rounds `num / den` to the nearest integer, a half to the even side.
fn rounded_half_even(num: u128, den: u128) -> (r: u128)
    requires
        0 < den <= TENTH_OF_TERABYTE,
        num <= i128::MAX,
    ensures
        r == round_half_even(num as int, den as int),
{
    let q = num / den;
    let r = num % den;
    assert(q <= num) by (nonlinear_arith)
        requires
            q == num / den,
            den >= 1,
    ;
    if r + r < den {
        q
    } else if r + r > den {
        q + 1
    } else if q % 2 == 0 {
        q
    } else {
        q + 1
    }
}

/// Rounds `num / den` to the nearest integer, a half upwards.
fn rounded_half_away(num: u128, den: u128) -> (r: u128)
    requires
        0 < den <= TENTH_OF_TERABYTE,
        num <= i128::MAX,
    ensures
        r == round_half_away(num as int, den as int),
{
    let q = num / den;
    let r = num % den;
    assert(q <= num) by (nonlinear_arith)
        requires
            q == num / den,
            den >= 1,
    ;
    if r + r >= den {
        q + 1
    } else {
        q
    }
}

/// The name of byte unit `k`.
fn bytes_unit_name(k: u8) -> (name: &'static str)
    ensures
        name@ == bytes_unit(k as nat),
{
    if k == 0 {
        "b"
    } else if k == 1 {
        "KB"
    } else if k == 2 {
        "MB"
    } else if k == 3 {
        "GB"
    } else {
        "TB"
    }
}

/// The suffix of count unit `k`.
fn count_suffix_name(k: u8) -> (name: &'static str)
    ensures
        name@ == count_suffix(k as nat),
{
    if k == 0 {
        ""
    } else if k == 1 {
        "K"
    } else if k == 2 {
        "M"
    } else {
        "B"
    }
}

/// Appends the text for `amount` bytes to `out`.
pub fn push_bytes_amount(out: &mut String, amount: i128)
    ensures
        final(out)@ == old(out)@ + bytes_text(amount as int),
{
    let (k, scale) = unit_of(amount, LAST_BYTES_UNIT);
    proof {
        lemma_pow1000_values();
    }
    if k == 0 {
        push_decimal(out, amount);
    } else if k < LAST_BYTES_UNIT {
        let value = rounded_half_even(amount as u128, scale);
        push_digits(out, value);
    } else {
        let tenths = rounded_half_even(amount as u128, TENTH_OF_TERABYTE);
        push_digits(out, tenths / 10);
        out.append(".");
        push_digits(out, tenths % 10);
    }
    out.append(" ");
    out.append(bytes_unit_name(k));
    assert(out@ =~= old(out)@ + bytes_text(amount as int));
}

/// Appends the text for `amount` items to `out`.
pub fn push_count_amount(out: &mut String, amount: i128)
    ensures
        final(out)@ == old(out)@ + count_text(amount as int),
{
    let (k, scale) = unit_of(amount, LAST_COUNT_UNIT);
    proof {
        lemma_pow1000_values();
    }
    if k == 0 {
        push_decimal(out, amount);
    } else {
        let value = rounded_half_away(amount as u128, scale);
        push_digits(out, value);
    }
    out.append(count_suffix_name(k));
    assert(out@ =~= old(out)@ + count_text(amount as int));
}

/// Writes a number of bytes for a reader: `999 b`, `2 KB`, `1.5 TB`.
pub fn format_bytes_amount(amount: i64) -> (text: String)
    ensures
        text@ == bytes_text(amount as int),
{
    let mut text = String::new();
    push_bytes_amount(&mut text, amount as i128);
    text
}

/// Writes a number of items for a reader: `500`, `3K`.
pub fn format_count_amount(amount: i64) -> (text: String)
    ensures
        text@ == count_text(amount as int),
{
    let mut text = String::new();
    push_count_amount(&mut text, amount as i128);
    text
}

} // verus!
