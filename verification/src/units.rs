//! Typed quantities for transfer measurements.
//!
//! Bits and bytes, seconds and nanoseconds, download and upload are each a
//! distinct type here, so the compiler rejects a substitution of one for the
//! other. A rate is kept as the exact ratio of bytes to time that produced
//! it, so every digit shown is derived from the measurement itself.

use core::cmp::Ordering;
use std::marker::PhantomData;

use vstd::prelude::*;

use crate::numerals::{
    fixed_point, lemma_fixed_point_denotes, lemma_product_fits, lemma_round_half_away_is_nearest,
    lemma_round_half_even_is_nearest, lemma_rounding_ignores_common_factor, pow10, push_char,
    push_fixed, round_half_away, round_half_even, rounded_half_away, rounded_half_even,
    writes_fixed,
};

verus! {

/// A count of transferred bytes.
#[derive(Clone, Copy, Debug, Default, PartialEq, Eq, PartialOrd, Ord, Structural)]
pub struct Bytes(u64);

impl View for Bytes {
    type V = nat;

    closed spec fn view(&self) -> nat {
        self.0 as nat
    }
}

impl Bytes {
    /// Builds a byte count.
    pub fn new(count: u64) -> (b: Self)
        ensures
            b@ == count,
    {
        Bytes(count)
    }

    /// Returns the underlying count.
    pub fn get(self) -> (count: u64)
        ensures
            count == self@,
    {
        self.0
    }

    /// Returns whether nothing was transferred.
    pub fn is_zero(self) -> (zero: bool)
        ensures
            zero == (self@ == 0),
    {
        self.0 == 0
    }

    /// A byte count determines its value: equal views are equal counts.
    pub proof fn lemma_view_injective(a: Bytes, b: Bytes)
        ensures
            a@ == b@ <==> a == b,
    {
    }
}

impl core::ops::Add for Bytes {
    type Output = Self;

    fn add(self, other: Self) -> (sum: Self)
        ensures
            sum@ == self@ + other@,
    {
        Bytes(self.0 + other.0)
    }
}

impl vstd::std_specs::ops::AddSpecImpl for Bytes {
    open spec fn obeys_add_spec() -> bool {
        true
    }

    open spec fn add_req(self, other: Self) -> bool {
        self@ + other@ <= u64::MAX
    }

    closed spec fn add_spec(self, other: Self) -> Self {
        Bytes((self.0 + other.0) as u64)
    }
}

/// The total of a list of byte counts.
pub open spec fn sum_of(counts: Seq<Bytes>) -> nat
    decreases counts.len(),
{
    if counts.len() == 0 {
        0
    } else {
        sum_of(counts.drop_last()) + counts.last()@
    }
}

/// A total over fewer of the counts is no larger.
proof fn lemma_partial_sums_grow(counts: Seq<Bytes>, i: int, j: int)
    requires
        0 <= i <= j <= counts.len(),
    ensures
        sum_of(counts.take(i)) <= sum_of(counts.take(j)),
    decreases j - i,
{
    if i < j {
        lemma_partial_sums_grow(counts, i, j - 1);
        assert(counts.take(j).drop_last() =~= counts.take(j - 1));
    }
}

impl Bytes {
    /// Returns the total of `counts`, as summing an iterator of byte counts
    /// does.
    pub fn sum(counts: &[Bytes]) -> (total: Bytes)
        requires
            sum_of(counts@) <= u64::MAX,
        ensures
            total@ == sum_of(counts@),
    {
        let mut total: u64 = 0;
        let mut i: usize = 0;
        proof {
            assert(counts@.take(0) =~= Seq::<Bytes>::empty());
        }
        while i < counts.len()
            invariant
                i <= counts@.len(),
                sum_of(counts@) <= u64::MAX,
                total == sum_of(counts@.take(i as int)),
            decreases counts@.len() - i,
        {
            proof {
                assert(counts@.take(i + 1).drop_last() =~= counts@.take(i as int));
                lemma_partial_sums_grow(counts@, i + 1, counts@.len() as int);
                assert(counts@.take(counts@.len() as int) =~= counts@);
            }
            total = total + counts[i].get();
            i = i + 1;
        }
        proof {
            assert(counts@.take(counts@.len() as int) =~= counts@);
        }
        Bytes(total)
    }
}

/// Nanoseconds in a second.
pub const NANOS_PER_SEC: u64 = 1_000_000_000;

/// A span of time, counted in nanoseconds.
///
/// Spans up to `u64::MAX` nanoseconds, a little over 584 years.
#[derive(Clone, Copy, Debug, Default, PartialEq, Eq, PartialOrd, Ord, Structural)]
pub struct Duration(u64);

impl View for Duration {
    type V = nat;

    /// The span in nanoseconds.
    closed spec fn view(&self) -> nat {
        self.0 as nat
    }
}

impl Duration {
    /// No time at all.
    pub fn zero() -> (d: Self)
        ensures
            d@ == 0,
    {
        Duration(0)
    }

    /// A span of `nanos` nanoseconds.
    pub fn from_nanos(nanos: u64) -> (d: Self)
        ensures
            d@ == nanos,
    {
        Duration(nanos)
    }

    /// A span of `micros` microseconds.
    pub fn from_micros(micros: u64) -> (d: Self)
        requires
            micros * 1_000 <= u64::MAX,
        ensures
            d@ == micros * 1_000,
    {
        Duration(micros * 1_000)
    }

    /// A span of `millis` milliseconds.
    pub fn from_millis(millis: u64) -> (d: Self)
        requires
            millis * 1_000_000 <= u64::MAX,
        ensures
            d@ == millis * 1_000_000,
    {
        Duration(millis * 1_000_000)
    }

    /// A span of `secs` seconds.
    pub fn from_secs(secs: u64) -> (d: Self)
        requires
            secs * 1_000_000_000 <= u64::MAX,
        ensures
            d@ == secs * 1_000_000_000,
    {
        Duration(secs * NANOS_PER_SEC)
    }

    /// A span fits in 64 bits of nanoseconds.
    pub proof fn lemma_bounded(self)
        ensures
            self@ <= u64::MAX,
    {
    }

    /// Returns the span in nanoseconds.
    pub fn as_nanos(self) -> (nanos: u64)
        ensures
            nanos == self@,
    {
        self.0
    }

    /// Returns whether the span is empty.
    pub fn is_zero(self) -> (zero: bool)
        ensures
            zero == (self@ == 0),
    {
        self.0 == 0
    }

    /// Returns `self - other`, or `None` when `other` is the longer span.
    pub fn checked_sub(self, other: Duration) -> (d: Option<Duration>)
        ensures
            match d {
                Some(d) => other@ <= self@ && d@ == self@ - other@,
                None => self@ < other@,
            },
    {
        if other.0 <= self.0 {
            Some(Duration(self.0 - other.0))
        } else {
            None
        }
    }

    /// Returns how far apart two spans are.
    pub fn abs_diff(self, other: Duration) -> (d: Duration)
        ensures
            d@ == if self@ >= other@ { self@ - other@ } else { other@ - self@ },
    {
        if self.0 >= other.0 {
            Duration(self.0 - other.0)
        } else {
            Duration(other.0 - self.0)
        }
    }
}

/// The magnitude a [`Bitrate`] is displayed in.
#[derive(Clone, Copy, Debug, PartialEq, Eq, Structural)]
pub enum Magnitude {
    Kilobits,
    Megabits,
    Gigabits,
}

impl Magnitude {
    /// The unit symbol, such as `Mbps`.
    pub open spec fn spec_symbol(self) -> Seq<char> {
        match self {
            Magnitude::Kilobits => seq!['K', 'b', 'p', 's'],
            Magnitude::Megabits => seq!['M', 'b', 'p', 's'],
            Magnitude::Gigabits => seq!['G', 'b', 'p', 's'],
        }
    }

    /// How many decimals keep a reading meaningful at this scale.
    pub open spec fn spec_decimals(self) -> nat {
        match self {
            Magnitude::Kilobits => 0,
            Magnitude::Megabits => 1,
            Magnitude::Gigabits => 2,
        }
    }

    /// Bits per second in one unit of this magnitude.
    pub open spec fn spec_divisor(self) -> nat {
        match self {
            Magnitude::Kilobits => 1_000,
            Magnitude::Megabits => 1_000_000,
            Magnitude::Gigabits => 1_000_000_000,
        }
    }

    /// Returns the unit symbol, such as `Mbps`.
    pub fn symbol(self) -> (s: &'static str)
        ensures
            s@ == self.spec_symbol(),
    {
        match self {
            Magnitude::Kilobits => {
                proof {
                    reveal_strlit("Kbps");
                }
                "Kbps"
            },
            Magnitude::Megabits => {
                proof {
                    reveal_strlit("Mbps");
                }
                "Mbps"
            },
            Magnitude::Gigabits => {
                proof {
                    reveal_strlit("Gbps");
                }
                "Gbps"
            },
        }
    }

    /// Returns how many decimals keep the reading meaningful at this scale.
    pub fn decimals(self) -> (d: usize)
        ensures
            d == self.spec_decimals(),
    {
        match self {
            Magnitude::Kilobits => 0,
            Magnitude::Megabits => 1,
            Magnitude::Gigabits => 2,
        }
    }

    /// The factor that turns bytes per nanosecond into units of the last
    /// displayed decimal of this magnitude: `8 * 10^9 * 10^decimals / divisor`.
    fn units_per_byte_nanosecond(self) -> (k: u64)
        ensures
            k * self.spec_divisor() == 8_000_000_000 * crate::numerals::pow10(self.spec_decimals()),
            k == units_factor(self),
    {
        proof {
            reveal_with_fuel(crate::numerals::pow10, 3);
        }
        match self {
            Magnitude::Kilobits => 8_000_000,
            Magnitude::Megabits => 80_000,
            Magnitude::Gigabits => 800,
        }
    }
}

/// `8 * 10^9 * 10^decimals / divisor` for a magnitude.
pub open spec fn units_factor(m: Magnitude) -> nat {
    match m {
        Magnitude::Kilobits => 8_000_000,
        Magnitude::Megabits => 80_000,
        Magnitude::Gigabits => 800,
    }
}

/// A transfer rate.
///
/// Deliberately has no constructor taking a bare number: a rate only exists
/// as the ratio of an observed byte count to the time it took. It is kept as
/// exactly that ratio, `8 * bytes` bits over `nanos` nanoseconds.
#[derive(Clone, Copy, Debug)]
pub struct Bitrate {
    bytes: u64,
    nanos: u64,
}

impl View for Bitrate {
    /// `(bytes, nanos)`: the rate is `8 * 10^9 * bytes / nanos` bits per second.
    type V = (nat, nat);

    closed spec fn view(&self) -> (nat, nat) {
        (self.bytes as nat, self.nanos as nat)
    }
}

/// The rate in bits per second, as a numerator over a denominator.
pub open spec fn bits_per_second_ratio(rate: (nat, nat)) -> (nat, nat) {
    (8_000_000_000 * rate.0, rate.1)
}

/// The magnitude a rate reads best in: the largest one it reaches a whole unit of.
pub open spec fn magnitude_of(rate: (nat, nat)) -> Magnitude {
    if 8 * rate.0 >= rate.1 {
        Magnitude::Gigabits
    } else if 8_000 * rate.0 >= rate.1 {
        Magnitude::Megabits
    } else {
        Magnitude::Kilobits
    }
}

/// The rate in units of the last decimal shown at magnitude `m`, rounded
/// half to even.
pub open spec fn scaled_units(rate: (nat, nat), m: Magnitude) -> nat {
    round_half_even(units_factor(m) * rate.0, rate.1)
}

/// The rate as text, such as `10.0 Mbps`.
pub open spec fn rate_text(rate: (nat, nat)) -> Seq<char> {
    let m = magnitude_of(rate);
    fixed_point(scaled_units(rate, m), m.spec_decimals()).push(' ') + m.spec_symbol()
}

/// The rate in megabits per second, rounded to two decimals half away from
/// zero, counted in hundredths.
pub open spec fn megabit_hundredths(rate: (nat, nat)) -> nat {
    round_half_away(800_000 * rate.0, rate.1)
}

/// The rate of `bytes` over `nanos`: zero when no time elapsed.
pub open spec fn transfer_rate(bytes: nat, nanos: nat) -> (nat, nat) {
    if nanos == 0 {
        (0, 1)
    } else {
        (bytes, nanos)
    }
}

/// Scaling the bytes and the time of a transfer by the same factor leaves
/// the rate as read unchanged: the same magnitude, the same digits and the
/// same megabits to two decimals.
pub proof fn lemma_proportional_transfers_read_alike(bytes: nat, nanos: nat, k: nat)
    requires
        nanos > 0,
        k > 0,
    ensures
        magnitude_of((k * bytes, k * nanos)) == magnitude_of((bytes, nanos)),
        rate_text((k * bytes, k * nanos)) == rate_text((bytes, nanos)),
        megabit_hundredths((k * bytes, k * nanos)) == megabit_hundredths((bytes, nanos)),
{
    assert(8 * (k * bytes) >= k * nanos <==> 8 * bytes >= nanos) by (nonlinear_arith)
        requires
            k > 0,
    ;
    assert(8_000 * (k * bytes) >= k * nanos <==> 8_000 * bytes >= nanos) by (nonlinear_arith)
        requires
            k > 0,
    ;
    let m = magnitude_of((bytes, nanos));
    let f = units_factor(m);
    assert(f * (k * bytes) == k * (f * bytes)) by (nonlinear_arith);
    lemma_rounding_ignores_common_factor(f * bytes, nanos, k);
    assert(800_000 * (k * bytes) == k * (800_000 * bytes)) by (nonlinear_arith);
    lemma_rounding_ignores_common_factor(800_000 * bytes, nanos, k);
}

/// The megabit reading is the rate in megabits per second to the nearest
/// hundredth, a tie rounding up, whatever magnitude the rate is shown in:
/// `8 * bytes` bits over `nanos / 10^9` seconds is `h / 100` megabits per
/// second give or take half a hundredth.
pub proof fn lemma_megabit_reading_is_nearest(bytes: nat, nanos: nat)
    requires
        nanos > 0,
    ensures
        (2 * megabit_hundredths((bytes, nanos)) - 1) * nanos * 1_000_000 <= 2 * 100 * 8 * bytes
            * 1_000_000_000,
        2 * 100 * 8 * bytes * 1_000_000_000 < (2 * megabit_hundredths((bytes, nanos)) + 1) * nanos
            * 1_000_000,
{
    let h = megabit_hundredths((bytes, nanos));
    lemma_round_half_away_is_nearest(800_000 * bytes, nanos);
    assert((2 * h - 1) * nanos * 1_000_000 <= 2 * 100 * 8 * bytes * 1_000_000_000 < (2 * h + 1)
        * nanos * 1_000_000) by (nonlinear_arith)
        requires
            (2 * h - 1) * nanos <= 2 * (800_000 * bytes),
            2 * (800_000 * bytes) < (2 * h + 1) * nanos,
    ;
}

/// A rate is shown in the largest magnitude it reaches a whole unit of:
/// gigabits from 10^9 bits per second, megabits from 10^6, kilobits below.
pub proof fn lemma_magnitude_is_the_largest_reached(bytes: nat, nanos: nat)
    requires
        nanos > 0,
    ensures
        magnitude_of((bytes, nanos)) == Magnitude::Gigabits <==> 8 * bytes * 1_000_000_000
            >= 1_000_000_000 * nanos,
        magnitude_of((bytes, nanos)) == Magnitude::Megabits <==> 1_000_000 * nanos <= 8 * bytes
            * 1_000_000_000 < 1_000_000_000 * nanos,
        magnitude_of((bytes, nanos)) == Magnitude::Kilobits <==> 8 * bytes * 1_000_000_000
            < 1_000_000 * nanos,
{
}

/// The digits shown for a rate are its value in the magnitude it is shown
/// in, to the magnitude's decimals, rounded to the nearest last digit with
/// a tie going to the even one: `units / 10^decimals` of the magnitude's
/// unit, give or take half a last digit.
pub proof fn lemma_reading_is_nearest(bytes: nat, nanos: nat)
    requires
        nanos > 0,
    ensures
        ({
            let m = magnitude_of((bytes, nanos));
            let units = scaled_units((bytes, nanos), m);
            let value = 2 * 8 * bytes * 1_000_000_000 * pow10(m.spec_decimals());
            &&& (2 * units - 1) * nanos * m.spec_divisor() <= value
            &&& value <= (2 * units + 1) * nanos * m.spec_divisor()
        }),
{
    let m = magnitude_of((bytes, nanos));
    let f = units_factor(m);
    let units = scaled_units((bytes, nanos), m);
    let d = m.spec_divisor();
    let p = pow10(m.spec_decimals());
    lemma_round_half_even_is_nearest(f * bytes, nanos);
    assert(f * d == 8_000_000_000 * p) by {
        reveal_with_fuel(pow10, 3);
    }
    assert((2 * units - 1) * nanos * d <= 2 * 8 * bytes * 1_000_000_000 * p <= (2 * units + 1)
        * nanos * d) by (nonlinear_arith)
        requires
            (2 * units - 1) * nanos <= 2 * (f * bytes),
            2 * (f * bytes) <= (2 * units + 1) * nanos,
            f * d == 8_000_000_000 * p,
            d > 0,
    ;
}

/// The text of a rate is its reading, written with the magnitude's
/// decimals, then a space and the magnitude's symbol.
pub proof fn lemma_rate_text_shows_the_reading(bytes: nat, nanos: nat)
    ensures
        ({
            let m = magnitude_of((bytes, nanos));
            let text = rate_text((bytes, nanos));
            &&& text.len() >= 5
            &&& writes_fixed(
                text.take(text.len() - 5),
                scaled_units((bytes, nanos), m),
                m.spec_decimals(),
            )
            &&& text.skip(text.len() - 5) == seq![' '] + m.spec_symbol()
        }),
{
    let m = magnitude_of((bytes, nanos));
    let reading = fixed_point(scaled_units((bytes, nanos), m), m.spec_decimals());
    lemma_fixed_point_denotes(scaled_units((bytes, nanos), m), m.spec_decimals());
    let text = rate_text((bytes, nanos));
    assert(text =~= reading + (seq![' '] + m.spec_symbol()));
    assert(text.take(text.len() - 5) =~= reading);
    assert(text.skip(text.len() - 5) =~= seq![' '] + m.spec_symbol());
}

impl Bitrate {
    #[verifier::type_invariant]
    spec fn well_formed(self) -> bool {
        self.nanos > 0
    }

    /// A rate of zero, for phases that transferred nothing.
    pub fn zero() -> (r: Self)
        ensures
            r@ == (0nat, 1nat),
    {
        Bitrate { bytes: 0, nanos: 1 }
    }

    /// Derives the rate at which `bytes` moved over `elapsed`.
    ///
    /// No elapsed time yields the zero rate rather than an infinity, so
    /// callers never propagate a meaningless reading.
    pub fn from_transfer(bytes: Bytes, elapsed: Duration) -> (r: Self)
        ensures
            r@ == transfer_rate(bytes@, elapsed@),
    {
        if elapsed.is_zero() {
            Bitrate::zero()
        } else {
            Bitrate { bytes: bytes.get(), nanos: elapsed.as_nanos() }
        }
    }

    /// Returns the bytes and nanoseconds whose ratio the rate is.
    pub fn parts(self) -> (parts: (u64, u64))
        ensures
            parts.0 == self@.0,
            parts.1 == self@.1,
            parts.1 > 0,
    {
        proof {
            use_type_invariant(self);
        }
        (self.bytes, self.nanos)
    }

    /// Returns the rate in bits per second as `(numerator, denominator)`.
    pub fn bits_per_second_ratio(self) -> (ratio: (u128, u64))
        ensures
            ratio.0 == bits_per_second_ratio(self@).0,
            ratio.1 == bits_per_second_ratio(self@).1,
            ratio.1 > 0,
    {
        proof {
            use_type_invariant(self);
        }
        (8_000_000_000u128 * self.bytes as u128, self.nanos)
    }

    /// Returns the magnitude the rate reads best in.
    pub fn magnitude(self) -> (m: Magnitude)
        ensures
            m == magnitude_of(self@),
    {
        let bytes = self.bytes as u128;
        let nanos = self.nanos as u128;
        if 8 * bytes >= nanos {
            Magnitude::Gigabits
        } else if 8_000 * bytes >= nanos {
            Magnitude::Megabits
        } else {
            Magnitude::Kilobits
        }
    }

    /// Splits the rate into the magnitude it reads best in and its value
    /// there, rounded to the magnitude's decimals and counted in units of
    /// the last decimal: ten megabits per second is `(100, Megabits)`.
    pub fn scaled(self) -> (reading: (u128, Magnitude))
        ensures
            reading.1 == magnitude_of(self@),
            reading.0 == scaled_units(self@, reading.1),
    {
        proof {
            use_type_invariant(self);
        }
        let m = self.magnitude();
        let k = m.units_per_byte_nanosecond();
        proof {
            lemma_product_fits(k, self.bytes);
        }
        let num = k as u128 * self.bytes as u128;
        assert(num / (self.nanos as u128) <= num) by (nonlinear_arith)
            requires
                self.nanos >= 1,
        ;
        assert(num < u128::MAX) by (nonlinear_arith)
            requires
                num == k * self.bytes,
                k <= 8_000_000,
                self.bytes <= u64::MAX,
        ;
        let units = rounded_half_even(num, self.nanos as u128);
        (units, m)
    }

    /// Returns the rate in megabits per second rounded to two decimals,
    /// counted in hundredths.
    pub fn megabits_per_second_hundredths(self) -> (h: u128)
        ensures
            h == megabit_hundredths(self@),
    {
        proof {
            use_type_invariant(self);
        }
        let num = 800_000u128 * self.bytes as u128;
        assert(num < u128::MAX);
        assert(num / (self.nanos as u128) <= num) by (nonlinear_arith)
            requires
                self.nanos >= 1,
        ;
        rounded_half_away(num, self.nanos as u128)
    }

    /// Returns the rate as text, such as `10.0 Mbps`.
    pub fn to_text(self) -> (text: String)
        ensures
            text@ == rate_text(self@),
    {
        let (units, m) = self.scaled();
        let mut text = String::new();
        push_fixed(&mut text, units, m.decimals());
        push_char(&mut text, ' ');
        text.append(m.symbol());
        proof {
            assert(text@ =~= rate_text(self@));
        }
        text
    }
}

impl Default for Bitrate {
    /// The zero rate.
    fn default() -> (r: Self)
        ensures
            r@ == (0nat, 1nat),
    {
        Bitrate::zero()
    }
}

impl PartialEq for Bitrate {
    fn eq(&self, other: &Self) -> (same: bool) {
        proof {
            lemma_product_fits(self.bytes, other.nanos);
            lemma_product_fits(other.bytes, self.nanos);
        }
        self.bytes as u128 * other.nanos as u128 == other.bytes as u128 * self.nanos as u128
    }
}

impl vstd::std_specs::cmp::PartialEqSpecImpl for Bitrate {
    open spec fn obeys_eq_spec() -> bool {
        true
    }

    /// Two rates are equal when they are the same ratio.
    open spec fn eq_spec(&self, other: &Self) -> bool {
        self@.0 * other@.1 == other@.0 * self@.1
    }
}

/// Whether rate `a` is slower than (-1), as fast as (0) or faster than (1)
/// rate `b`, both as `(bytes, nanos)` with positive spans.
pub open spec fn rate_order(a: (nat, nat), b: (nat, nat)) -> int {
    if a.0 * b.1 < b.0 * a.1 {
        -1
    } else if a.0 * b.1 == b.0 * a.1 {
        0
    } else {
        1
    }
}

/// Returns how rate `a` compares with rate `b`: -1 slower, 0 as fast, 1 faster.
fn compare_rates(a: Bitrate, b: Bitrate) -> (order: i8)
    ensures
        order == rate_order(a@, b@),
{
    let (ab, an) = a.parts();
    let (bb, bn) = b.parts();
    proof {
        lemma_product_fits(ab, bn);
        lemma_product_fits(bb, an);
    }
    let left = ab as u128 * bn as u128;
    let right = bb as u128 * an as u128;
    if left < right {
        -1
    } else if left == right {
        0
    } else {
        1
    }
}

impl PartialOrd for Bitrate {
    fn partial_cmp(&self, other: &Self) -> (order: Option<Ordering>) {
        let order = compare_rates(*self, *other);
        if order < 0 {
            Some(Ordering::Less)
        } else if order == 0 {
            Some(Ordering::Equal)
        } else {
            Some(Ordering::Greater)
        }
    }
}

impl vstd::std_specs::cmp::PartialOrdSpecImpl for Bitrate {
    open spec fn obeys_partial_cmp_spec() -> bool {
        true
    }

    /// Rates are ordered by how fast they are.
    open spec fn partial_cmp_spec(&self, other: &Self) -> Option<Ordering> {
        let order = rate_order(self@, other@);
        if order < 0 {
            Some(Ordering::Less)
        } else if order == 0 {
            Some(Ordering::Equal)
        } else {
            Some(Ordering::Greater)
        }
    }
}

/// A transfer direction used only as a compile-time tag.
pub trait Direction {
    /// Human readable name of the direction, used in reports and progress.
    const LABEL: &'static str;
}

/// Bytes flowing from the server to this machine.
#[derive(Debug)]
pub struct Download(());

/// Bytes flowing from this machine to the server.
#[derive(Debug)]
pub struct Upload(());

impl Direction for Download {
    const LABEL: &'static str = "Download";
}

impl Direction for Upload {
    const LABEL: &'static str = "Upload";
}

/// A completed transfer measurement, tagged with the direction it measured.
///
/// The direction lives in the type, so a download figure cannot be passed
/// where an upload one is expected.
#[derive(Debug)]
pub struct Throughput<D: Direction> {
    bytes: Bytes,
    elapsed: Duration,
    direction: PhantomData<D>,
}

impl<D: Direction> View for Throughput<D> {
    /// `(bytes, nanoseconds)` of the transfer.
    type V = (nat, nat);

    closed spec fn view(&self) -> (nat, nat) {
        (self.bytes@, self.elapsed@)
    }
}

impl<D: Direction> Clone for Throughput<D> {
    fn clone(&self) -> (copy: Self)
        ensures
            copy@ == self@,
    {
        *self
    }
}

impl<D: Direction> Copy for Throughput<D> {
}

impl<D: Direction> PartialEq for Throughput<D> {
    fn eq(&self, other: &Self) -> (same: bool) {
        self.bytes == other.bytes && self.elapsed == other.elapsed
    }
}

impl<D: Direction> vstd::std_specs::cmp::PartialEqSpecImpl for Throughput<D> {
    open spec fn obeys_eq_spec() -> bool {
        true
    }

    /// Two measurements are equal when they moved the same bytes in the same time.
    open spec fn eq_spec(&self, other: &Self) -> bool {
        self@ == other@
    }
}

impl<D: Direction> Throughput<D> {
    /// Records that `bytes` were transferred over `elapsed`.
    pub fn new(bytes: Bytes, elapsed: Duration) -> (t: Self)
        ensures
            t@ == (bytes@, elapsed@),
    {
        Throughput { bytes, elapsed, direction: PhantomData }
    }

    /// Returns how many bytes crossed the wire.
    pub fn bytes(self) -> (b: Bytes)
        ensures
            b@ == self@.0,
    {
        self.bytes
    }

    /// Returns how long the transfer ran.
    pub fn elapsed(self) -> (d: Duration)
        ensures
            d@ == self@.1,
    {
        self.elapsed
    }

    /// Returns the sustained rate over the whole transfer.
    pub fn bitrate(self) -> (r: Bitrate)
        ensures
            r@ == transfer_rate(self@.0, self@.1),
    {
        Bitrate::from_transfer(self.bytes, self.elapsed)
    }
}

} // verus!
