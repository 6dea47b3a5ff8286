//! Floating-point settings, kept as the bit patterns of the numbers.
//!
//! The bits of an IEEE 754 number order like the number itself once the sign
//! is taken apart, so range checks need no floating-point arithmetic.

use vstd::prelude::*;

verus! {

/// The bits of a double-precision number.
#[derive(Debug, Clone, Copy, PartialEq, Eq, Structural)]
pub struct Real64 {
    pub bits: u64,
}

/// The bits of a single-precision number.
#[derive(Debug, Clone, Copy, PartialEq, Eq, Structural)]
pub struct Real32 {
    pub bits: u32,
}

pub const SIGN_64: u64 = 0x8000_0000_0000_0000;

pub const INFINITY_64: u64 = 0x7ff0_0000_0000_0000;

/// 0.1
pub const TENTH: u64 = 0x3fb9_9999_9999_999a;

/// 0.5
pub const HALF: u64 = 0x3fe0_0000_0000_0000;

/// 0.9
pub const NINE_TENTHS: u64 = 0x3fec_cccc_cccc_cccd;

/// 1.0
pub const ONE: u64 = 0x3ff0_0000_0000_0000;

/// -1.0
pub const MINUS_ONE: u64 = 0xbff0_0000_0000_0000;

pub const SIGN_32: u32 = 0x8000_0000;

/// 1.0
pub const ONE_32: u32 = 0x3f80_0000;

impl Real64 {
    /// The bits without the sign.
    pub open spec fn magnitude(self) -> int {
        if self.bits >= SIGN_64 {
            self.bits - SIGN_64
        } else {
            self.bits as int
        }
    }

    /// Orders numbers: both zeros are 0, negative numbers are below it.
    pub open spec fn rank(self) -> int {
        if self.bits >= SIGN_64 {
            -self.magnitude()
        } else {
            self.magnitude()
        }
    }

    pub open spec fn nan(self) -> bool {
        self.magnitude() > INFINITY_64
    }

    pub open spec fn finite(self) -> bool {
        self.magnitude() < INFINITY_64
    }

    /// Both are numbers, and this one is at most the other.
    pub open spec fn at_most(self, other: Real64) -> bool {
        !self.nan() && !other.nan() && self.rank() <= other.rank()
    }

    /// Both are numbers and the same one.
    pub open spec fn same(self, other: Real64) -> bool {
        !self.nan() && !other.nan() && self.rank() == other.rank()
    }

    fn rank_of(self) -> (r: i64)
        ensures
            r == self.rank(),
    {
        if self.bits >= SIGN_64 {
            0 - ((self.bits - SIGN_64) as i64)
        } else {
            self.bits as i64
        }
    }

    pub fn is_nan(self) -> (r: bool)
        ensures
            r == self.nan(),
    {
        let magnitude: u64 = if self.bits >= SIGN_64 { self.bits - SIGN_64 } else { self.bits };
        magnitude > INFINITY_64
    }

    pub fn is_finite(self) -> (r: bool)
        ensures
            r == self.finite(),
    {
        let magnitude: u64 = if self.bits >= SIGN_64 { self.bits - SIGN_64 } else { self.bits };
        magnitude < INFINITY_64
    }

    /// Whether this is at most `other`.
    pub fn le(self, other: Real64) -> (r: bool)
        ensures
            r == self.at_most(other),
    {
        !self.is_nan() && !other.is_nan() && self.rank_of() <= other.rank_of()
    }

    /// Whether both are the same number.
    pub fn equals(self, other: Real64) -> (r: bool)
        ensures
            r == self.same(other),
    {
        !self.is_nan() && !other.is_nan() && self.rank_of() == other.rank_of()
    }

    /// Whether this is a number above zero.
    pub fn is_positive(self) -> (r: bool)
        ensures
            r == (!self.nan() && self.rank() > 0),
    {
        !self.is_nan() && self.rank_of() > 0
    }
}

impl Real32 {
    /// The number lies between 0 and 1.
    pub open spec fn is_fraction(self) -> bool {
        self.bits <= ONE_32 || self.bits == SIGN_32
    }

    /// Whether the number lies between 0 and 1.
    pub fn within_unit(self) -> (r: bool)
        ensures
            r == self.is_fraction(),
    {
        self.bits <= ONE_32 || self.bits == SIGN_32
    }

    /// Both are numbers and the same one.
    pub open spec fn same(self, other: Real32) -> bool {
        let a = if self.bits >= SIGN_32 {
            self.bits - SIGN_32
        } else {
            self.bits as int
        };
        let b = if other.bits >= SIGN_32 {
            other.bits - SIGN_32
        } else {
            other.bits as int
        };
        a <= 0x7f80_0000 && (self.bits == other.bits || (a == 0 && b == 0))
    }

    /// Whether both are the same number.
    pub fn equals(self, other: Real32) -> (r: bool)
        ensures
            r == self.same(other),
    {
        let a: u32 = if self.bits >= SIGN_32 { self.bits - SIGN_32 } else { self.bits };
        let b: u32 = if other.bits >= SIGN_32 { other.bits - SIGN_32 } else { other.bits };
        a <= 0x7f80_0000 && (self.bits == other.bits || (a == 0 && b == 0))
    }
}

/// The weight of the last place once `p` is cut to 53 significant bits.
pub open spec fn last_place_weight(p: nat) -> nat
    decreases p,
{
    if p < 0x20_0000_0000_0000 {
        1
    } else {
        2 * last_place_weight(p / 2)
    }
}

/// The multiple of `weight` nearest to `p`; of two, the even one.
pub open spec fn nearest_multiple(p: nat, weight: nat) -> nat {
    let k = p / weight;
    let rest = p % weight;
    if 2 * rest > weight || (2 * rest == weight && k % 2 == 1) {
        (k + 1) * weight
    } else {
        k * weight
    }
}

/// What a double-precision product of two whole numbers is rounded to.
pub open spec fn double_product(a: nat, b: nat) -> nat {
    nearest_multiple(a * b, last_place_weight(a * b))
}

/// How many places a number below one has after the binary point.
pub open spec fn fraction_places(ratio: Real64) -> nat {
    (1075 - ratio.bits / 0x10_0000_0000_0000) as nat
}

/// The significant digits of a normal number, as a whole number.
pub open spec fn significand(ratio: Real64) -> nat {
    (ratio.bits % 0x10_0000_0000_0000 + 0x10_0000_0000_0000) as nat
}

/// Two to the power `n`.
pub open spec fn pow2(n: nat) -> nat
    decreases n,
{
    if n == 0 {
        1
    } else {
        2 * pow2((n - 1) as nat)
    }
}

/// `length` times `ratio` in double precision, rounded to the nearest whole
/// number and upwards from the middle.
pub open spec fn share(length: nat, ratio: Real64) -> nat {
    let places = pow2(fraction_places(ratio));
    (double_product(length, significand(ratio)) + places / 2) / places
}

proof fn lemma_weight_step(p: nat)
    ensures
        last_place_weight(p) > 0,
        p / last_place_weight(p) < 0x20_0000_0000_0000,
        last_place_weight(p) <= p || last_place_weight(p) == 1,
    decreases p,
{
    if p >= 0x20_0000_0000_0000 {
        lemma_weight_step(p / 2);
        let w = last_place_weight(p / 2);
        assert(p / (2 * w) == (p / 2) / w) by {
            vstd::arithmetic::div_mod::lemma_div_denominator(p as int, 2, w as int);
        }
    }
}

proof fn lemma_places(n: nat)
    requires
        53 <= n <= 56,
    ensures
        n == 53 ==> pow2(n) == 0x20_0000_0000_0000,
        n == 54 ==> pow2(n) == 0x40_0000_0000_0000,
        n == 55 ==> pow2(n) == 0x80_0000_0000_0000,
        n == 56 ==> pow2(n) == 0x100_0000_0000_0000,
{
    lemma_pow2_32();
    assert(pow2(40) == 0x100_0000_0000) by {
        reveal_with_fuel(pow2, 9);
    }
    assert(pow2(48) == 0x1_0000_0000_0000) by {
        reveal_with_fuel(pow2, 9);
    }
    assert(pow2(53) == 0x20_0000_0000_0000) by {
        reveal_with_fuel(pow2, 6);
    }
    assert(pow2(54) == 2 * pow2(53));
    assert(pow2(55) == 2 * pow2(54));
    assert(pow2(56) == 2 * pow2(55));
}

proof fn lemma_pow2_32()
    ensures
        pow2(31) == 0x8000_0000,
        pow2(32) == 0x1_0000_0000,
{
    assert(pow2(8) == 0x100) by {
        reveal_with_fuel(pow2, 9);
    }
    assert(pow2(16) == 0x1_0000) by {
        reveal_with_fuel(pow2, 9);
    }
    assert(pow2(24) == 0x100_0000) by {
        reveal_with_fuel(pow2, 9);
    }
    assert(pow2(31) == 0x8000_0000) by {
        reveal_with_fuel(pow2, 8);
    }
    assert(pow2(32) == 2 * pow2(31));
}

/// `length` times a ratio between 0.1 and 0.9, computed as double precision
/// does and rounded to whole pixels.
pub fn share_of(length: u32, ratio: Real64) -> (r: u32)
    requires
        length <= 0x7fff_ffff,
        TENTH <= ratio.bits <= NINE_TENTHS,
    ensures
        r == share(length as nat, ratio),
        r <= length + 1,
{
    let digits: u64 = ratio.bits % 0x10_0000_0000_0000 + 0x10_0000_0000_0000;
    let exponent: u64 = ratio.bits / 0x10_0000_0000_0000;
    let places: u128 = if exponent == 1022 {
        0x20_0000_0000_0000
    } else if exponent == 1021 {
        0x40_0000_0000_0000
    } else if exponent == 1020 {
        0x80_0000_0000_0000
    } else {
        0x100_0000_0000_0000
    };
    proof {
        lemma_places(fraction_places(ratio));
    }
    assert(0 <= length * digits <= 0x7fff_ffff * 0x1f_ffff_ffff_ffff) by (nonlinear_arith)
        requires
            0 <= length <= 0x7fff_ffff,
            0 <= digits <= 0x1f_ffff_ffff_ffff,
    ;
    let product: u128 = length as u128 * digits as u128;
    let mut weight: u128 = 1;
    let mut rest: u128 = product;
    while rest >= 0x20_0000_0000_0000
        invariant
            last_place_weight(product as nat) == weight * last_place_weight(rest as nat),
            weight >= 1,
            weight * rest <= product,
            rest < 0x20_0000_0000_0000 ==> weight == last_place_weight(product as nat),
            product <= 0x7fff_ffff * 0x1f_ffff_ffff_ffff,
        decreases rest,
    {
        let next: u128 = rest / 2;
        assert(weight * (2 * last_place_weight(next as nat)) == (2 * weight) * last_place_weight(
            next as nat,
        )) by (nonlinear_arith);
        assert((2 * weight) * next <= weight * rest) by (nonlinear_arith)
            requires
                2 * next <= rest,
                weight >= 1,
        ;
        assert(2 * weight <= (2 * weight) * next) by (nonlinear_arith)
            requires
                next >= 1,
                weight >= 1,
        ;
        weight = 2 * weight;
        rest = next;
    }
    assert(weight == last_place_weight(product as nat));
    proof {
        lemma_weight_step(product as nat);
    }
    let k: u128 = product / weight;
    let left: u128 = product % weight;
    assert(k * weight + left == product) by (nonlinear_arith)
        requires
            k == product / weight,
            left == product % weight,
            weight >= 1,
    ;
    assert((k + 1) * weight == k * weight + weight) by (nonlinear_arith);
    proof {
        // The dropped places are fewer than the places after the point.
        lemma_weight_small(product as nat);
    }
    let rounded: u128 = if 2 * left > weight || (2 * left == weight && k % 2 == 1) {
        (k + 1) * weight
    } else {
        k * weight
    };
    assert(product <= length * places) by (nonlinear_arith)
        requires
            product == length * digits,
            0 <= digits <= places,
            length >= 0,
    ;
    assert(rounded + places / 2 < (length + 2) * places) by (nonlinear_arith)
        requires
            rounded <= product + weight,
            product <= length * places,
            weight < places / 2,
            places > 0,
    ;
    let r: u128 = (rounded + places / 2) / places;
    assert(r < length + 2) by (nonlinear_arith)
        requires
            r == (rounded + places / 2) / (places as int),
            rounded + places / 2 < (length + 2) * places,
            places > 0,
    ;
    r as u32
}

/// A share misses the exact product by half a unit at most, apart from the
/// digits that double precision drops.
pub proof fn a_share_is_within_half_a_unit(length: nat, ratio: Real64, digits: nat, scale: nat)
    requires
        length <= 0x7fff_ffff,
        0x3fb9_9999_9999_999a <= ratio.bits <= 0x3fec_cccc_cccc_cccd,
        digits == ratio.bits % 0x10_0000_0000_0000 + 0x10_0000_0000_0000,
        ratio.bits / 0x10_0000_0000_0000 == 1022 ==> scale == 0x20_0000_0000_0000,
        ratio.bits / 0x10_0000_0000_0000 == 1021 ==> scale == 0x40_0000_0000_0000,
        ratio.bits / 0x10_0000_0000_0000 == 1020 ==> scale == 0x80_0000_0000_0000,
        ratio.bits / 0x10_0000_0000_0000 == 1019 ==> scale == 0x100_0000_0000_0000,
    ensures
        2 * (share(length, ratio) * scale) <= 2 * (length * digits) + scale + 0x8000_0000,
        2 * (share(length, ratio) * scale) >= 2 * (length * digits) - scale - 0x8000_0000,
{
    lemma_places(fraction_places(ratio));
    assert(pow2(fraction_places(ratio)) == scale);
    assert(significand(ratio) == digits);
    let p = length * digits;
    assert(p <= 0x7fff_ffff * 0x1f_ffff_ffff_ffff) by (nonlinear_arith)
        requires
            p == length * digits,
            length <= 0x7fff_ffff,
            digits <= 0x1f_ffff_ffff_ffff,
    ;
    lemma_weight_small(p);
    lemma_weight_step(p);
    let weight = last_place_weight(p);
    let k = p / weight;
    let rest = p % weight;
    assert(k * weight + rest == p && rest < weight) by (nonlinear_arith)
        requires
            k == p / weight,
            rest == p % weight,
            weight >= 1,
    ;
    assert((k + 1) * weight == k * weight + weight) by (nonlinear_arith);
    let rounded = double_product(length, digits);
    assert(2 * rounded <= 2 * p + weight && 2 * rounded + weight >= 2 * p);
    let s = share(length, ratio);
    assert(s * scale <= rounded + scale / 2 < s * scale + scale) by (nonlinear_arith)
        requires
            s == (rounded + scale / 2) / scale,
            scale >= 1,
    ;
}

proof fn lemma_weight_small(p: nat)
    requires
        p <= 0x7fff_ffff * 0x1f_ffff_ffff_ffff,
    ensures
        last_place_weight(p) <= 0x8000_0000,
{
    lemma_pow2_32();
    lemma_weight_bound(p, 31);
}

proof fn lemma_weight_bound(p: nat, n: nat)
    requires
        p < 0x20_0000_0000_0000 * pow2(n),
    ensures
        last_place_weight(p) <= pow2(n),
    decreases n,
{
    lemma_pow2_positive(n);
    if n > 0 && p >= 0x20_0000_0000_0000 {
        lemma_weight_bound(p / 2, (n - 1) as nat);
    }
}

proof fn lemma_pow2_positive(n: nat)
    ensures
        pow2(n) > 0,
    decreases n,
{
    if n > 0 {
        lemma_pow2_positive((n - 1) as nat);
    }
}

} // verus!
