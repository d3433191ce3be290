//! Building text: decimal numerals, fixed-point readings and the rounding
//! rules that decide which digits are shown.

use vstd::prelude::*;

verus! {

/// Appends one character to `text`.
///
/// Trusted: calls `String::push`, which std documents as appending the
/// character to the end of the string.
#[verifier::external_body]
pub fn push_char(text: &mut String, c: char)
    ensures
        final(text)@ == old(text)@.push(c),
{
    text.push(c);
}

/// Chars of a string slice, in order.
pub fn chars_of(text: &str) -> (chars: Vec<char>)
    ensures
        chars@ == text@,
{
    let mut chars: Vec<char> = Vec::new();
    for c in it: text.chars()
        invariant
            chars@ == it.seq().take(it.index() as int),
    {
        chars.push(c);
    }
    chars
}

/// A string holding `chars[start..end]`.
pub fn string_of(chars: &Vec<char>, start: usize, end: usize) -> (text: String)
    requires
        start <= end <= chars@.len(),
    ensures
        text@ == chars@.subrange(start as int, end as int),
{
    let mut text = String::new();
    let mut i = start;
    while i < end
        invariant
            start <= i <= end <= chars@.len(),
            text@ == chars@.subrange(start as int, i as int),
        decreases end - i,
    {
        push_char(&mut text, chars[i]);
        i = i + 1;
        assert(text@ =~= chars@.subrange(start as int, i as int));
    }
    text
}

/// The character of a decimal digit.
pub open spec fn digit_char(d: nat) -> char {
    if d == 0 {
        '0'
    } else if d == 1 {
        '1'
    } else if d == 2 {
        '2'
    } else if d == 3 {
        '3'
    } else if d == 4 {
        '4'
    } else if d == 5 {
        '5'
    } else if d == 6 {
        '6'
    } else if d == 7 {
        '7'
    } else if d == 8 {
        '8'
    } else {
        '9'
    }
}

/// Returns the character of the decimal digit `d`.
fn digit(d: u8) -> (c: char)
    requires
        d < 10,
    ensures
        c == digit_char(d as nat),
{
    if d == 0 {
        '0'
    } else if d == 1 {
        '1'
    } else if d == 2 {
        '2'
    } else if d == 3 {
        '3'
    } else if d == 4 {
        '4'
    } else if d == 5 {
        '5'
    } else if d == 6 {
        '6'
    } else if d == 7 {
        '7'
    } else if d == 8 {
        '8'
    } else {
        '9'
    }
}

/// The decimal numeral of `n`, without leading zeros.
pub open spec fn decimal(n: nat) -> Seq<char>
    decreases n,
{
    if n < 10 {
        seq![digit_char(n)]
    } else {
        decimal(n / 10).push(digit_char(n % 10))
    }
}

/// The number a string of decimal digits denotes.
pub open spec fn numeral_value(digits: Seq<char>) -> nat
    decreases digits.len(),
{
    if digits.len() == 0 {
        0
    } else {
        numeral_value(digits.drop_last()) * 10 + ((digits.last() as u32) - 48) as nat
    }
}

/// A decimal numeral denotes exactly the number it was written for, and is
/// made of digits only.
pub proof fn lemma_decimal_denotes(n: nat)
    ensures
        numeral_value(decimal(n)) == n,
        forall|i: int| 0 <= i < decimal(n).len() ==> '0' <= #[trigger] decimal(n)[i] <= '9',
    decreases n,
{
    let d = n % 10;
    assert(((digit_char(d) as u32) - 48) as nat == d);
    if n >= 10 {
        lemma_decimal_denotes(n / 10);
        assert(decimal(n).drop_last() =~= decimal(n / 10));
        assert(decimal(n).last() == digit_char(d));
        assert(numeral_value(decimal(n)) == (n / 10) * 10 + d);
    } else {
        assert(decimal(n).drop_last() =~= Seq::<char>::empty());
        assert(numeral_value(Seq::<char>::empty()) == 0);
        assert(decimal(n).last() == digit_char(d));
    }
}

/// `count` copies of `c`.
pub open spec fn repeat(c: char, count: nat) -> Seq<char> {
    Seq::new(count, |i: int| c)
}

/// The decimal numeral of `n`, left-padded with zeros to at least `width` digits.
pub open spec fn decimal_padded(n: nat, width: nat) -> Seq<char> {
    let digits = decimal(n);
    if digits.len() < width {
        repeat('0', (width - digits.len()) as nat) + digits
    } else {
        digits
    }
}

/// Ten to the power `e`.
pub open spec fn pow10(e: nat) -> nat
    decreases e,
{
    if e == 0 {
        1
    } else {
        10 * pow10((e - 1) as nat)
    }
}

/// A count of `10^-decimals` units written as a decimal fraction with
/// exactly `decimals` digits after the point, such as `2005` at two
/// decimals reading `20.05`.
pub open spec fn fixed_point(units: nat, decimals: nat) -> Seq<char> {
    let whole = decimal(units / pow10(decimals));
    if decimals == 0 {
        whole
    } else {
        whole.push('.') + decimal_padded(units % pow10(decimals), decimals)
    }
}

/// `num / den` rounded to the nearest integer, ties to the even neighbour.
pub open spec fn round_half_even(num: nat, den: nat) -> nat {
    let q = num / den;
    let r = num % den;
    if 2 * r > den || (2 * r == den && q % 2 == 1) {
        q + 1
    } else {
        q
    }
}

/// `num / den` rounded to the nearest integer, ties away from zero.
pub open spec fn round_half_away(num: nat, den: nat) -> nat {
    let q = num / den;
    let r = num % den;
    if 2 * r >= den {
        q + 1
    } else {
        q
    }
}

/// Whether every character of `s` is a decimal digit.
pub open spec fn all_digits(s: Seq<char>) -> bool {
    forall|i: int| 0 <= i < s.len() ==> '0' <= #[trigger] s[i] <= '9'
}

/// Whether `text` writes `units` hundredths, tenths, ... as a decimal
/// fraction with `decimals` digits after the point: digits, then (when there
/// are decimals) one point followed by exactly `decimals` digits, and the
/// digits with the point taken out read back as `units`.
pub open spec fn writes_fixed(text: Seq<char>, units: nat, decimals: nat) -> bool {
    if decimals == 0 {
        text.len() >= 1 && all_digits(text) && numeral_value(text) == units
    } else {
        let point = text.len() - decimals - 1;
        &&& text.len() >= decimals + 2
        &&& text[point] == '.'
        &&& all_digits(text.take(point))
        &&& all_digits(text.skip(point + 1))
        &&& numeral_value(text.take(point) + text.skip(point + 1)) == units
    }
}

/// Powers of ten are positive.
proof fn lemma_pow10_positive(e: nat)
    ensures
        pow10(e) >= 1,
    decreases e,
{
    if e > 0 {
        lemma_pow10_positive((e - 1) as nat);
    }
}

/// Writing digits after others shifts the others up by a power of ten.
proof fn lemma_numeral_value_concat(a: Seq<char>, b: Seq<char>)
    ensures
        numeral_value(a + b) == numeral_value(a) * pow10(b.len()) + numeral_value(b),
    decreases b.len(),
{
    if b.len() == 0 {
        assert(a + b =~= a);
        assert(pow10(0) == 1);
        assert(numeral_value(b) == 0);
        assert(numeral_value(a) * 1 == numeral_value(a));
    } else {
        let c = a + b;
        assert(c.drop_last() =~= a + b.drop_last());
        assert(c.last() == b.last());
        lemma_numeral_value_concat(a, b.drop_last());
        let x = numeral_value(a);
        let y = numeral_value(b.drop_last());
        let p = pow10((b.len() - 1) as nat);
        let d = ((b.last() as u32) - 48) as nat;
        assert(numeral_value(c) == numeral_value(c.drop_last()) * 10 + d);
        assert(numeral_value(b) == y * 10 + d);
        assert(pow10(b.len()) == 10 * p);
        assert((x * p + y) * 10 + d == x * (10 * p) + (y * 10 + d)) by (nonlinear_arith);
    }
}

/// Leading zeros are worth nothing.
proof fn lemma_zeros(k: nat)
    ensures
        numeral_value(repeat('0', k)) == 0,
        all_digits(repeat('0', k)),
    decreases k,
{
    if k > 0 {
        lemma_zeros((k - 1) as nat);
        assert(repeat('0', k).drop_last() =~= repeat('0', (k - 1) as nat));
    }
}

/// A number below `10^k` takes at most `k` digits.
proof fn lemma_decimal_fits(n: nat, k: nat)
    requires
        k >= 1,
        n < pow10(k),
    ensures
        decimal(n).len() <= k,
    decreases k,
{
    if n >= 10 {
        if k == 1 {
            assert(pow10(1) == 10) by {
                reveal_with_fuel(pow10, 2);
            }
        } else {
            assert(pow10(k) == 10 * pow10((k - 1) as nat));
            lemma_decimal_fits(n / 10, (k - 1) as nat);
        }
    }
}

/// A padded numeral takes exactly its width and denotes its number.
proof fn lemma_decimal_padded(r: nat, width: nat)
    requires
        width >= 1,
        r < pow10(width),
    ensures
        decimal_padded(r, width).len() == width,
        all_digits(decimal_padded(r, width)),
        numeral_value(decimal_padded(r, width)) == r,
{
    lemma_decimal_fits(r, width);
    lemma_decimal_denotes(r);
    let digits = decimal(r);
    if digits.len() < width {
        let zeros = repeat('0', (width - digits.len()) as nat);
        lemma_zeros((width - digits.len()) as nat);
        lemma_numeral_value_concat(zeros, digits);
        assert(0 * pow10(digits.len()) == 0);
        let padded = zeros + digits;
        assert forall|i: int| 0 <= i < padded.len() implies '0' <= #[trigger] padded[i] <= '9' by {
            if i < zeros.len() {
                assert(padded[i] == zeros[i]);
            } else {
                assert(padded[i] == digits[i - zeros.len()]);
            }
        }
    }
}

/// A fixed-point reading denotes exactly its value: its digits, with the
/// point taken out, read back as the count of units, and exactly
/// `decimals` of them stand after the point.
pub proof fn lemma_fixed_point_denotes(units: nat, decimals: nat)
    ensures
        writes_fixed(fixed_point(units, decimals), units, decimals),
{
    let p = pow10(decimals);
    lemma_pow10_positive(decimals);
    let whole = decimal(units / p);
    lemma_decimal_denotes(units / p);
    vstd::arithmetic::div_mod::lemma_fundamental_div_mod(units as int, p as int);
    if decimals == 0 {
        assert(p == 1);
        assert(units / 1 == units);
    } else {
        let fraction = decimal_padded(units % p, decimals);
        lemma_decimal_padded(units % p, decimals);
        let text = whole.push('.') + fraction;
        let point = text.len() - decimals - 1;
        assert(point == whole.len());
        assert(text.take(point) =~= whole);
        assert(text.skip(point + 1) =~= fraction);
        assert(text[point] == '.');
        lemma_numeral_value_concat(whole, fraction);
        assert((units / p) * p + units % p == units) by (nonlinear_arith)
            requires
                units == p * (units / p) + units % p,
        ;
    }
}

/// Rounding half away from zero gives the nearest whole number, a tie
/// going up: `q - 1/2 <= num / den < q + 1/2`.
pub proof fn lemma_round_half_away_is_nearest(num: nat, den: nat)
    requires
        den > 0,
    ensures
        (2 * round_half_away(num, den) - 1) * den <= 2 * num,
        2 * num < (2 * round_half_away(num, den) + 1) * den,
{
    let q = num / den;
    let r = num % den;
    vstd::arithmetic::div_mod::lemma_fundamental_div_mod(num as int, den as int);
    let h = round_half_away(num, den);
    assert((2 * h - 1) * den <= 2 * num < (2 * h + 1) * den) by (nonlinear_arith)
        requires
            num == den * q + r,
            0 <= r < den,
            h == if 2 * r >= den {
                q + 1
            } else {
                q
            },
    ;
}

/// Rounding half to even gives the nearest whole number, a tie going to
/// the even one: `q - 1/2 <= num / den <= q + 1/2`.
pub proof fn lemma_round_half_even_is_nearest(num: nat, den: nat)
    requires
        den > 0,
    ensures
        (2 * round_half_even(num, den) - 1) * den <= 2 * num,
        2 * num <= (2 * round_half_even(num, den) + 1) * den,
        (2 * num == (2 * round_half_even(num, den) - 1) * den || 2 * num == (2 * round_half_even(
            num,
            den,
        ) + 1) * den) ==> round_half_even(num, den) % 2 == 0,
{
    let q = num / den;
    let r = num % den;
    vstd::arithmetic::div_mod::lemma_fundamental_div_mod(num as int, den as int);
    let h = round_half_even(num, den);
    assert((2 * h - 1) * den <= 2 * num <= (2 * h + 1) * den) by (nonlinear_arith)
        requires
            num == den * q + r,
            0 <= r < den,
            h == if 2 * r > den || (2 * r == den && q % 2 == 1) {
                q + 1
            } else {
                q
            },
    ;
    assert((2 * num == (2 * h - 1) * den || 2 * num == (2 * h + 1) * den) ==> 2 * r == den) by (
    nonlinear_arith)
        requires
            num == den * q + r,
            0 <= r < den,
            h == q || h == q + 1,
            h == q + 1 ==> 2 * r >= den,
            h == q ==> 2 * r <= den,
    ;
}

/// A product of two 64-bit values fits in 128 bits.
pub proof fn lemma_product_fits(a: u64, b: u64)
    ensures
        a * b <= u128::MAX,
        (a as u128) * (b as u128) == a * b,
{
    assert(a * b <= u64::MAX * u64::MAX) by (nonlinear_arith)
        requires
            a <= u64::MAX,
            b <= u64::MAX,
    ;
}

/// Scaling a fraction's numerator and denominator by the same factor
/// changes neither way of rounding it.
pub proof fn lemma_rounding_ignores_common_factor(x: nat, y: nat, k: nat)
    requires
        y > 0,
        k > 0,
    ensures
        round_half_even(k * x, k * y) == round_half_even(x, y),
        round_half_away(k * x, k * y) == round_half_away(x, y),
{
    let q = x / y;
    let r = x % y;
    vstd::arithmetic::div_mod::lemma_fundamental_div_mod(x as int, y as int);
    assert(k * x == q * (k * y) + k * r) by (nonlinear_arith)
        requires
            x == y * q + r,
    ;
    assert(0 <= k * r < k * y) by (nonlinear_arith)
        requires
            0 <= r < y,
            k > 0,
    ;
    vstd::arithmetic::div_mod::lemma_fundamental_div_mod_converse(
        (k * x) as int,
        (k * y) as int,
        q as int,
        (k * r) as int,
    );
    assert(2 * (k * r) > k * y <==> 2 * r > y) by (nonlinear_arith)
        requires
            k > 0,
    ;
    assert(2 * (k * r) == k * y <==> 2 * r == y) by (nonlinear_arith)
        requires
            k > 0,
    ;
    assert(2 * (k * r) >= k * y <==> 2 * r >= y) by (nonlinear_arith)
        requires
            k > 0,
    ;
}

/// Computes `round_half_even(num, den)`.
pub fn rounded_half_even(num: u128, den: u128) -> (q: u128)
    requires
        den > 0,
        num / den < u128::MAX,
    ensures
        q == round_half_even(num as nat, den as nat),
{
    let q = num / den;
    let r = num % den;
    let twice: u128 = if r > den - r { 1 } else if r == den - r && q % 2 == 1 { 1 } else { 0 };
    q + twice
}

/// Computes `round_half_away(num, den)`.
pub fn rounded_half_away(num: u128, den: u128) -> (q: u128)
    requires
        den > 0,
        num / den < u128::MAX,
    ensures
        q == round_half_away(num as nat, den as nat),
{
    let q = num / den;
    let r = num % den;
    if r >= den - r {
        q + 1
    } else {
        q
    }
}

/// 2^64, the base of the low half of a wide product.
pub open spec fn base64() -> nat {
    0x1_0000_0000_0000_0000
}

/// Returns `a * b` as `(high, low)` with `a * b == high * 2^64 + low`.
pub fn mul_wide(a: u128, b: u64) -> (product: (u128, u64))
    ensures
        a * b == product.0 * base64() + product.1,
{
    let a_high = a / 0x1_0000_0000_0000_0000u128;
    let a_low = a % 0x1_0000_0000_0000_0000u128;
    assert(a_high <= u64::MAX) by (nonlinear_arith)
        requires
            a_high == a / 0x1_0000_0000_0000_0000u128,
            a <= u128::MAX,
    ;
    proof {
        lemma_product_fits(a_high as u64, b);
        lemma_product_fits(a_low as u64, b);
    }
    let low_part = a_low * b as u128;
    let high_part = a_high * b as u128;
    let carry = low_part / 0x1_0000_0000_0000_0000u128;
    assert(high_part + carry <= u128::MAX) by (nonlinear_arith)
        requires
            high_part == a_high * b,
            a_high <= u64::MAX,
            b <= u64::MAX,
            carry == low_part / 0x1_0000_0000_0000_0000u128,
            low_part <= u128::MAX,
    ;
    let high = high_part + carry;
    let low = (low_part % 0x1_0000_0000_0000_0000u128) as u64;
    assert(a * b == high * base64() + low) by (nonlinear_arith)
        requires
            a == a_high * base64() + a_low,
            low_part == a_low * b,
            high_part == a_high * b,
            low_part == carry * base64() + low,
            high == high_part + carry,
            base64() == 0x1_0000_0000_0000_0000,
    ;
    (high, low)
}

/// Returns whether the wide value `x` is at most the wide value `y`.
pub fn wide_le(x: (u128, u64), y: (u128, u64)) -> (le: bool)
    ensures
        le == (x.0 * base64() + x.1 <= y.0 * base64() + y.1),
{
    assert(x.0 < y.0 ==> x.0 * base64() + x.1 < y.0 * base64() + y.1) by (nonlinear_arith)
        requires
            x.1 < base64(),
            y.1 >= 0,
            base64() > 0,
    ;
    assert(x.0 > y.0 ==> x.0 * base64() + x.1 > y.0 * base64() + y.1) by (nonlinear_arith)
        requires
            y.1 < base64(),
            x.1 >= 0,
            base64() > 0,
    ;
    x.0 < y.0 || (x.0 == y.0 && x.1 <= y.1)
}

/// Appends the decimal numeral of `n`.
pub fn push_decimal(text: &mut String, n: u128)
    ensures
        final(text)@ == old(text)@ + decimal(n as nat),
    decreases n,
{
    if n >= 10 {
        push_decimal(text, n / 10);
    }
    let d = (n % 10) as u8;
    push_char(text, digit(d));
    proof {
        reveal_with_fuel(decimal, 2);
        assert(final(text)@ =~= old(text)@ + decimal(n as nat));
    }
}

/// Appends `count` copies of `c`.
pub fn push_repeated(text: &mut String, c: char, count: usize)
    ensures
        final(text)@ == old(text)@ + repeat(c, count as nat),
{
    let ghost start = text@;
    let mut i: usize = 0;
    while i < count
        invariant
            i <= count,
            text@ == start + repeat(c, i as nat),
        decreases count - i,
    {
        push_char(text, c);
        i = i + 1;
        assert(text@ =~= start + repeat(c, i as nat));
    }
}

/// Appends `units` as a decimal fraction with `decimals` digits after the point.
pub fn push_fixed(text: &mut String, units: u128, decimals: usize)
    requires
        decimals <= 2,
    ensures
        final(text)@ == old(text)@ + fixed_point(units as nat, decimals as nat),
{
    proof {
        reveal_with_fuel(pow10, 3);
    }
    let scale: u128 = if decimals == 0 { 1 } else if decimals == 1 { 10 } else { 100 };
    assert(scale == pow10(decimals as nat));
    push_decimal(text, units / scale);
    if decimals > 0 {
        push_char(text, '.');
        let fraction = units % scale;
        if decimals == 2 && fraction < 10 {
            push_char(text, '0');
        }
        push_decimal(text, fraction);
        proof {
            let f = fraction as nat;
            if decimals == 2 && f < 10 {
                assert(decimal(f) =~= seq![digit_char(f)]);
                assert(repeat('0', 1) =~= seq!['0']);
            } else if decimals == 2 {
                assert(decimal(f) == decimal(f / 10).push(digit_char(f % 10)));
                assert(decimal(f / 10) =~= seq![digit_char(f / 10)]);
            } else {
                assert(decimal(f) =~= seq![digit_char(f)]);
            }
        }
    }
    assert(final(text)@ =~= old(text)@ + fixed_point(units as nat, decimals as nat));
}

} // verus!
