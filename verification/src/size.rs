//! Byte counts for people: a count above 1024 is shown in the largest binary
//! unit that it exceeds, with one decimal place.
//!
//! The shown value is the one that double-precision arithmetic gives: the
//! count is first taken to the nearest number with a 53-bit significand, and
//! the quotient by the unit is then rounded to tenths. Ties go to the even
//! neighbour both times.

use vstd::prelude::*;
use vstd::arithmetic::div_mod::{
    lemma_div_is_ordered, lemma_div_is_ordered_by_denominator, lemma_fundamental_div_mod,
};
use crate::text::{decimal, digit_char, push_char, push_decimal};

verus! {

/// 1024 bytes.
pub const KB: u64 = 1024;

/// 1024 times 1024 bytes.
pub const MB: u64 = 1_048_576;

/// 1024 times 1024 times 1024 bytes.
pub const GB: u64 = 1_073_741_824;

/// 1024 to the fourth power.
pub const TB: u64 = 1_099_511_627_776;

/// Two to the power 53: below it every whole number has a 53-bit significand.
pub const SIGNIFICAND_LIMIT: u64 = 0x20_0000_0000_0000;

/// The unit in which a size is shown.
#[derive(Debug, Clone, Copy, PartialEq, Eq, Structural)]
pub enum SizeUnit {
    Bytes,
    Kilo,
    Mega,
    Giga,
    Tera,
}

/// `num / den` rounded to the nearest whole number, a tie going to the even
/// neighbour.
pub open spec fn round_half_even(num: nat, den: nat) -> nat
    recommends
        den > 0,
{
    let whole = num / den;
    let rest = num % den;
    if 2 * rest > den || (2 * rest == den && whole % 2 == 1) {
        whole + 1
    } else {
        whole
    }
}

/// The distance between neighbouring numbers with a 53-bit significand, at
/// the magnitude of `size`: one below two to the 53, and doubling with each
/// further bit.
pub open spec fn significand_step(size: nat) -> nat
    decreases size,
{
    if size < SIGNIFICAND_LIMIT {
        1
    } else {
        2 * significand_step(size / 2)
    }
}

/// The number with a 53-bit significand that is nearest to `size`.
pub open spec fn nearest_double(size: nat) -> nat {
    round_half_even(size, significand_step(size)) * significand_step(size)
}

/// The unit for `size`: the largest one that `size` exceeds.
pub open spec fn size_unit(size: nat) -> SizeUnit {
    if size > TB {
        SizeUnit::Tera
    } else if size > GB {
        SizeUnit::Giga
    } else if size > MB {
        SizeUnit::Mega
    } else if size > KB {
        SizeUnit::Kilo
    } else {
        SizeUnit::Bytes
    }
}

/// The number of bytes in one unit.
pub open spec fn unit_bytes(unit: SizeUnit) -> nat {
    match unit {
        SizeUnit::Bytes => 1,
        SizeUnit::Kilo => KB as nat,
        SizeUnit::Mega => MB as nat,
        SizeUnit::Giga => GB as nat,
        SizeUnit::Tera => TB as nat,
    }
}

/// The letter that marks a unit in a shown size. Plain bytes have none, and
/// `human_readable` never asks for theirs.
pub open spec fn unit_letter(unit: SizeUnit) -> char {
    match unit {
        SizeUnit::Bytes => 'B',
        SizeUnit::Kilo => 'K',
        SizeUnit::Mega => 'M',
        SizeUnit::Giga => 'G',
        SizeUnit::Tera => 'T',
    }
}

/// The shown value of `size` in tenths of its unit.
pub open spec fn size_tenths(size: nat) -> nat {
    round_half_even(nearest_double(size) * 10, unit_bytes(size_unit(size)))
}

/// A value given in tenths, written with one decimal place.
pub open spec fn one_decimal(tenths: nat) -> Seq<char> {
    decimal(tenths / 10) + seq!['.', digit_char(tenths % 10)]
}

/// The text shown for `size`: the bare count up to 1024, and above it the
/// value in the size's unit with one decimal place and the unit's letter.
pub open spec fn human_readable(size: nat) -> Seq<char> {
    match size_unit(size) {
        SizeUnit::Bytes => decimal(size),
        unit => one_decimal(size_tenths(size)).push(unit_letter(unit)),
    }
}

/// Rounding keeps the order: a larger numerator never rounds to less.
pub proof fn lemma_round_half_even_monotonic(low: nat, high: nat, den: nat)
    requires
        low <= high,
        den > 0,
    ensures
        round_half_even(low, den) <= round_half_even(high, den),
{
    lemma_div_is_ordered(low as int, high as int, den as int);
    lemma_fundamental_div_mod(low as int, den as int);
    lemma_fundamental_div_mod(high as int, den as int);
    let whole = low / den;
    if high / den == whole {
        assert(low == den * whole + low % den);
        assert(high == den * whole + high % den);
    }
}

/// Rounding moves a quotient by less than one: the result lies between the
/// quotient rounded down and one more than that.
pub proof fn lemma_round_half_even_bounds(num: nat, den: nat)
    requires
        den > 0,
    ensures
        num / den <= round_half_even(num, den) <= num / den + 1,
{
}

/// The step is at least one, the sizes with a given step lie below two to the
/// 53 steps, and those with a step above one lie at or above two to the 52
/// steps.
pub proof fn lemma_significand_step_range(size: nat)
    ensures
        significand_step(size) >= 1,
        size < SIGNIFICAND_LIMIT * significand_step(size),
        significand_step(size) == 1 || size >= (SIGNIFICAND_LIMIT / 2) * significand_step(size),
    decreases size,
{
    if size >= SIGNIFICAND_LIMIT {
        lemma_significand_step_range(size / 2);
        let half = significand_step(size / 2);
        assert(size < 0x20_0000_0000_0000 * (2 * half)) by (nonlinear_arith)
            requires
                size / 2 < 0x20_0000_0000_0000 * half,
        ;
        assert(size >= 0x10_0000_0000_0000 * (2 * half)) by (nonlinear_arith)
            requires
                half == 1 || size / 2 >= 0x10_0000_0000_0000 * half,
                size >= 0x20_0000_0000_0000,
                half >= 1,
        ;
    }
}

/// Steps grow with the size, and every step above another is at least its
/// double.
pub proof fn lemma_significand_step_doubles(low: nat, high: nat)
    requires
        low <= high,
    ensures
        significand_step(low) == significand_step(high) || 2 * significand_step(low)
            <= significand_step(high),
    decreases high,
{
    if high >= SIGNIFICAND_LIMIT {
        lemma_significand_step_range(high / 2);
        if low >= SIGNIFICAND_LIMIT {
            lemma_significand_step_doubles(low / 2, high / 2);
        }
    }
}

/// Taking sizes to their nearest doubles keeps their order.
pub proof fn lemma_nearest_double_monotonic(low: nat, high: nat)
    requires
        low <= high,
    ensures
        nearest_double(low) <= nearest_double(high),
{
    let step_low = significand_step(low);
    let step_high = significand_step(high);
    lemma_significand_step_doubles(low, high);
    lemma_significand_step_range(low);
    lemma_significand_step_range(high);
    lemma_round_half_even_bounds(low, step_low);
    lemma_round_half_even_bounds(high, step_high);
    let round_low = round_half_even(low, step_low);
    let round_high = round_half_even(high, step_high);
    if step_low == step_high {
        lemma_round_half_even_monotonic(low, high, step_low);
        assert(round_low * step_low <= round_high * step_high) by (nonlinear_arith)
            requires
                round_low <= round_high,
                step_low == step_high,
        ;
    } else {
        lemma_fundamental_div_mod(low as int, step_low as int);
        lemma_fundamental_div_mod(high as int, step_high as int);
        assert(low / step_low < 0x20_0000_0000_0000) by (nonlinear_arith)
            requires
                low < 0x20_0000_0000_0000 * step_low,
                step_low >= 1,
                low >= step_low * (low / step_low),
        ;
        assert(high / step_high >= 0x10_0000_0000_0000) by (nonlinear_arith)
            requires
                high >= 0x10_0000_0000_0000 * step_high,
                step_high >= 1,
                high == step_high * (high / step_high) + high % step_high,
                high % step_high < step_high,
        ;
        assert(round_low * step_low <= round_high * step_high) by (nonlinear_arith)
            requires
                round_low <= 0x20_0000_0000_0000,
                round_high >= 0x10_0000_0000_0000,
                2 * step_low <= step_high,
        ;
    }
}

/// Within one unit the shown value follows the size: of two sizes that are
/// shown in the same unit, the larger is never shown as the smaller value.
pub proof fn lemma_human_readable_monotonic(low: nat, high: nat)
    requires
        low <= high,
        size_unit(low) == size_unit(high),
    ensures
        size_tenths(low) <= size_tenths(high),
{
    lemma_nearest_double_monotonic(low, high);
    lemma_round_half_even_monotonic(
        nearest_double(low) * 10,
        nearest_double(high) * 10,
        unit_bytes(size_unit(low)),
    );
}

/// The unit changes exactly above 1024 and above its second, third and
/// fourth power: each of these sizes is the last one shown in the unit below.
pub proof fn lemma_unit_thresholds(size: nat)
    ensures
        size_unit(size) == SizeUnit::Bytes <==> size <= 1024,
        size_unit(size) == SizeUnit::Kilo <==> 1024 < size <= 1024 * 1024,
        size_unit(size) == SizeUnit::Mega <==> 1024 * 1024 < size <= 1024 * 1024 * 1024,
        size_unit(size) == SizeUnit::Giga <==> 1024 * 1024 * 1024 < size <= 1024 * 1024 * 1024 * 1024,
        size_unit(size) == SizeUnit::Tera <==> 1024 * 1024 * 1024 * 1024 < size,
{
}

/// Below two to the 53 a size is its own nearest double, so that the shown
/// value is the exact quotient rounded to tenths.
pub proof fn lemma_small_sizes_are_exact(size: nat)
    requires
        size < SIGNIFICAND_LIMIT,
    ensures
        nearest_double(size) == size,
        size_tenths(size) == round_half_even(size * 10, unit_bytes(size_unit(size))),
{
    assert(significand_step(size) == 1);
    assert(size / 1 == size && size % 1 == 0);
    assert(round_half_even(size, 1) == size);
}

fn half_even(num: u128, den: u128) -> (out: u128)
    requires
        den > 0,
        num < u128::MAX,
    ensures
        out == round_half_even(num as nat, den as nat),
        out <= num / den + 1,
{
    let whole: u128 = num / den;
    let rest: u128 = num % den;
    if rest > den - rest || (rest == den - rest && whole % 2 == 1) {
        whole + 1
    } else {
        whole
    }
}

fn to_nearest_double(size: u64) -> (out: u128)
    ensures
        out == nearest_double(size as nat),
        out <= 0x1_0000_0000_0000_1000,
{
    let mut step: u64 = 1;
    let mut rest: u64 = size;
    while rest >= SIGNIFICAND_LIMIT
        invariant
            significand_step(size as nat) == step * significand_step(rest as nat),
            step * rest <= size,
            1 <= step <= 0x1000,
        decreases rest,
    {
        assert(step < 0x800 && (step * 2) * (rest / 2) <= step * rest) by (nonlinear_arith)
            requires
                step * rest <= size,
                rest >= 0x20_0000_0000_0000,
                size <= u64::MAX,
                step >= 1,
        ;
        assert(step * (2 * significand_step((rest / 2) as nat)) == (step * 2) * significand_step(
            (rest / 2) as nat,
        )) by (nonlinear_arith);
        step = step * 2;
        rest = rest / 2;
    }
    assert(significand_step(rest as nat) == 1);
    assert(step == significand_step(size as nat)) by (nonlinear_arith)
        requires
            significand_step(size as nat) == step * significand_step(rest as nat),
            significand_step(rest as nat) == 1,
    ;
    let whole: u128 = half_even(size as u128, step as u128);
    proof {
        lemma_fundamental_div_mod(size as int, step as int);
        assert(whole * step <= size + step) by (nonlinear_arith)
            requires
                whole <= size as int / step as int + 1,
                step >= 1,
                step * (size as int / step as int) <= size,
        ;
    }
    whole * (step as u128)
}

fn push_in_unit(text: &mut String, size: u64, unit: u64)
    requires
        unit >= 1024,
    ensures
        final(text)@ == old(text)@ + one_decimal(
            round_half_even(nearest_double(size as nat) * 10, unit as nat),
        ),
{
    let near: u128 = to_nearest_double(size);
    let tenths: u128 = half_even(near * 10, unit as u128);
    proof {
        lemma_div_is_ordered_by_denominator((near * 10) as int, 1024, unit as int);
    }
    let tenths: u64 = tenths as u64;
    push_decimal(text, tenths / 10);
    push_char(text, '.');
    push_decimal(text, tenths % 10);
    proof {
        let shown = round_half_even(nearest_double(size as nat) * 10, unit as nat);
        assert(decimal((tenths % 10) as nat) =~= seq![digit_char(shown % 10)]);
        assert(text@ =~= old(text)@ + one_decimal(shown));
    }
}

/// Shows a byte count the way people read it: `1023` stays `1023`, `1025`
/// becomes `1.0K`, and so on through `M`, `G` and `T`.
pub fn get_human_readable(my_size: u64) -> (out: String)
    ensures
        out@ == human_readable(my_size as nat),
{
    let mut out = String::new();
    if my_size > TB {
        push_in_unit(&mut out, my_size, TB);
        push_char(&mut out, 'T');
    } else if my_size > GB {
        push_in_unit(&mut out, my_size, GB);
        push_char(&mut out, 'G');
    } else if my_size > MB {
        push_in_unit(&mut out, my_size, MB);
        push_char(&mut out, 'M');
    } else if my_size > KB {
        push_in_unit(&mut out, my_size, KB);
        push_char(&mut out, 'K');
    } else {
        push_decimal(&mut out, my_size);
    }
    assert(out@ =~= human_readable(my_size as nat));
    out
}

} // verus!
