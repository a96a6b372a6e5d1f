//! File sizes as text.
//!
//! A size in bytes is shown in KB with one decimal, as a double-precision quotient by 1024
//! prints: the size is first rounded to 53 significant bits, then the quotient to tenths, both
//! to nearest with ties to even. Dividing by a power of two rounds nothing.
use vstd::prelude::*;

verus! {

/// `num / den` rounded to the nearest integer, ties to even.
pub open spec fn round_half_even(num: nat, den: nat) -> nat {
    let quotient = num / den;
    let rest = num % den;
    if 2 * rest > den || (2 * rest == den && quotient % 2 == 1) {
        quotient + 1
    } else {
        quotient
    }
}

/// The distance between neighbouring doubles at the integer `n`.
pub open spec fn double_spacing(n: nat) -> nat
    decreases n,
{
    if n < 0x20_0000_0000_0000 {
        1
    } else {
        2 * double_spacing(n / 2)
    }
}

/// The double nearest to the integer `n`.
pub open spec fn nearest_double(n: nat) -> nat {
    round_half_even(n, double_spacing(n)) * double_spacing(n)
}

/// The size in tenths of a KB.
pub open spec fn kb_tenths(size: nat) -> nat {
    round_half_even(nearest_double(size) * 10, 1024)
}

/// The character of a decimal digit.
pub open spec fn digit(d: nat) -> char {
    (48 + d) as char
}

/// `n` in decimal notation.
pub open spec fn decimal(n: nat) -> Seq<char>
    decreases n,
{
    if n < 10 {
        seq![digit(n)]
    } else {
        decimal(n / 10).push(digit(n % 10))
    }
}

/// The size in KB with one decimal.
pub open spec fn kb_text(size: nat) -> Seq<char> {
    decimal(kb_tenths(size) / 10) + seq!['.', digit(kb_tenths(size) % 10)]
}

fn round_div(num: u128, den: u128) -> (rounded: u128)
    requires
        0 < den,
        2 * num < u128::MAX,
        2 * den < u128::MAX,
    ensures
        rounded == round_half_even(num as nat, den as nat),
{
    let quotient: u128 = num / den;
    let rest: u128 = num % den;
    if 2 * rest > den || (2 * rest == den && quotient % 2 == 1) {
        quotient + 1
    } else {
        quotient
    }
}

fn nearest_double_of(size: u64) -> (nearest: u128)
    ensures
        nearest == nearest_double(size as nat),
        nearest < 0x2_0000_0000_0000_0000,
{
    let mut unit: u64 = 1;
    let mut scaled: u64 = size;
    while scaled >= 0x20_0000_0000_0000
        invariant
            1 <= unit < 4096,
            scaled as int == size as int / unit as int,
            double_spacing(size as nat) == unit * double_spacing(scaled as nat),
        decreases scaled,
    {
        proof {
            let (n, u, q) = (size as int, unit as int, scaled as int);
            vstd::arithmetic::div_mod::lemma_fundamental_div_mod(n, u);
            vstd::arithmetic::div_mod::lemma_div_denominator(n, u, 2);
            assert(u < 2048) by (nonlinear_arith)
                requires
                    n == u * q + n % u,
                    0 <= n % u,
                    q >= 0x20_0000_0000_0000,
                    n < 0x1_0000_0000_0000_0000,
                    u >= 1,
            ;
            let spacing = double_spacing((q / 2) as nat) as int;
            assert(u * (2 * spacing) == (u * 2) * spacing) by (nonlinear_arith);
        }
        scaled = scaled / 2;
        unit = unit * 2;
    }
    let rounded = round_div(size as u128, unit as u128);
    proof {
        let (n, u, r) = (size as int, unit as int, rounded as int);
        vstd::arithmetic::div_mod::lemma_fundamental_div_mod(n, u);
        assert(r * u <= n + u) by (nonlinear_arith)
            requires
                n == u * (n / u) + n % u,
                0 <= n % u,
                0 <= r <= n / u + 1,
                1 <= u,
        ;
        assert(unit * 1 == unit) by (nonlinear_arith);
    }
    rounded * unit as u128
}

/// `n` in decimal notation.
pub fn decimal_text(n: u64) -> (text: String)
    ensures
        text@ == decimal(n as nat),
    decreases n,
{
    let mut text = if n < 10 {
        String::new()
    } else {
        decimal_text(n / 10)
    };
    text.push(digit_of((n % 10) as u8));
    assert(text@ =~= decimal(n as nat));
    text
}

fn digit_of(d: u8) -> (c: char)
    requires
        d < 10,
    ensures
        c == digit(d as nat),
{
    (48 + d) as char
}

/// The size in KB with one decimal.
pub fn size_in_kb(size: u64) -> (text: String)
    ensures
        text@ == kb_text(size as nat),
{
    let tenths = round_div(nearest_double_of(size) * 10, 1024) as u64;
    let mut text = decimal_text(tenths / 10);
    text.push('.');
    text.push(digit_of((tenths % 10) as u8));
    assert(text@ =~= kb_text(size as nat));
    text
}

/// Below 2^53 bytes every size is a double itself, so the shown size is off by at most half a
/// tenth of a KB.
pub proof fn law_shown_size_is_nearest(size: nat)
    requires
        size < 0x20_0000_0000_0000,
    ensures
        nearest_double(size) == size,
        -512 <= kb_tenths(size) * 1024 - size * 10 <= 512,
{
    assert(double_spacing(size) == 1);
    assert(round_half_even(size, 1) == size);
    assert(size * 1 == size);
}

/// Rounding gives the nearest integer to the quotient, and the even one of two that are equally
/// near.
pub proof fn law_rounding_is_to_nearest_even(num: nat, den: nat)
    requires
        den > 0,
    ensures
        ({
            let off = 2 * (round_half_even(num, den) * den - num);
            &&& -den <= off <= den
            &&& off == den || off == -den ==> round_half_even(num, den) % 2 == 0
        }),
{
    let (n, d) = (num as int, den as int);
    let q = n / d;
    vstd::arithmetic::div_mod::lemma_fundamental_div_mod(n, d);
    assert(q * d == d * q) by (nonlinear_arith);
    assert((q + 1) * d == q * d + d) by (nonlinear_arith);
}

/// Neighbouring doubles are a power of two apart, so that 53 bits tell all of them apart: one below
/// 2^53, and above as far apart as makes the integer a 53-bit multiple of the distance.
pub proof fn law_doubles_have_53_bits(n: nat) -> (exponent: nat)
    ensures
        double_spacing(n) == vstd::arithmetic::power2::pow2(exponent),
        n < 0x20_0000_0000_0000 ==> exponent == 0,
        n >= 0x20_0000_0000_0000 ==> 0x10_0000_0000_0000 * double_spacing(n) <= n
            < 0x20_0000_0000_0000 * double_spacing(n),
    decreases n,
{
    vstd::arithmetic::power2::lemma2_to64();
    if n < 0x20_0000_0000_0000 {
        0
    } else {
        let below = law_doubles_have_53_bits(n / 2);
        vstd::arithmetic::power2::lemma_pow2_unfold(below + 1);
        below + 1
    }
}

/// The nearest double to an integer is the nearest multiple of the distance between doubles there,
/// and the even one of two that are equally near.
pub proof fn law_nearest_double_is_nearest(n: nat) -> (multiple: nat)
    ensures
        nearest_double(n) == multiple * double_spacing(n),
        ({
            let off = 2 * (nearest_double(n) - n);
            &&& -double_spacing(n) <= off <= double_spacing(n)
            &&& off == double_spacing(n) || off == -double_spacing(n) ==> multiple % 2 == 0
        }),
{
    let exponent = law_doubles_have_53_bits(n);
    vstd::arithmetic::power2::lemma_pow2_pos(exponent);
    law_rounding_is_to_nearest_even(n, double_spacing(n));
    round_half_even(n, double_spacing(n))
}

/// Decimal notation is made of digits, does not start with a zero but for zero itself, and has the
/// number as its value.
pub proof fn law_decimal_notation_has_the_value(n: nat)
    ensures
        decimal(n).len() > 0,
        forall|k: int| 0 <= k < decimal(n).len() ==> 48 <= (#[trigger] decimal(n)[k]) as int <= 57,
        n > 0 ==> decimal(n)[0] != '0',
        decimal(n).fold_left(0int, |value: int, c: char| 10 * value + (c as int - 48)) == n,
    decreases n,
{
    let value = |value: int, c: char| 10 * value + (c as int - 48);
    if n < 10 {
        assert(decimal(n).drop_last() =~= Seq::empty());
        assert(decimal(n).drop_last().fold_left(0int, value) == 0);
        assert(decimal(n).last() == digit(n));
    } else {
        law_decimal_notation_has_the_value(n / 10);
        let before = decimal(n / 10);
        assert(decimal(n).drop_last() =~= before);
        assert(decimal(n).last() == digit(n % 10));
        assert(decimal(n)[0] == before[0]);
        assert forall|k: int| 0 <= k < decimal(n).len() implies 48 <= (
        #[trigger] decimal(n)[k]) as int <= 57 by {
            if k < before.len() {
                assert(decimal(n)[k] == before[k]);
            }
        }
    }
}

/// A size in KB is shown with one digit after the point. Without the point, the digits are the
/// nearest number of tenths to the size as a double, and the even one of two that are equally
/// near.
pub proof fn law_shown_size_is_in_tenths(size: nat)
    ensures
        ({
            let text = kb_text(size);
            let point = text.len() - 2;
            let tenths = text.take(point).push(text.last()).fold_left(
                0int,
                |value: int, c: char| 10 * value + (c as int - 48),
            );
            let off = 2 * (tenths * 1024 - nearest_double(size) * 10);
            &&& point > 0
            &&& text[point] == '.'
            &&& forall|k: int|
                0 <= k < text.len() && k != point ==> 48 <= (#[trigger] text[k]) as int <= 57
            &&& point > 1 ==> text[0] != '0'
            &&& -1024 <= off <= 1024
            &&& off == 1024 || off == -1024 ==> tenths % 2 == 0
        }),
{
    let value = |value: int, c: char| 10 * value + (c as int - 48);
    let text = kb_text(size);
    let point = text.len() - 2;
    let tenths = kb_tenths(size);
    let whole = decimal(tenths / 10);
    law_decimal_notation_has_the_value(tenths / 10);
    law_rounding_is_to_nearest_even(nearest_double(size) * 10, 1024);
    let digits = text.take(point).push(text.last());
    assert(digits.drop_last() =~= whole);
    assert(digits.last() == digit(tenths % 10));
    assert(digits.fold_left(0int, value) == tenths);
    assert forall|k: int| 0 <= k < text.len() && k != point implies 48 <= (
    #[trigger] text[k]) as int <= 57 by {
        if k < point {
            assert(text[k] == whole[k]);
        }
    }
    if point > 1 {
        assert(text[0] == whole[0]);
        if tenths / 10 == 0 {
            assert(whole.len() == 1);
        }
    }
}

} // verus!
