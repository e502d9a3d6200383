//! IEEE-754 single precision numbers, held as their bit patterns.
//!
//! Gains, speeds and palette parameters travel through the badge as 32-bit
//! floating point numbers. The arithmetic that decides the colour of an LED is
//! done here on integers, with the rounding that the standard prescribes.
use vstd::prelude::*;

verus! {

/// A single precision number: one sign bit, eight exponent bits, and
/// twenty-three fraction bits, from the most significant bit down.
#[derive(Clone, Copy, Debug, PartialEq, Eq, Structural)]
pub struct F32 {
    pub bits: u32,
}

/// The weight of the lowest exponent bit, and the smallest normal significand.
pub const HIDDEN_BIT: u32 = 0x80_0000;

/// The first integer that does not fit a significand.
pub const SIGNIFICAND_LIMIT: u64 = 0x100_0000;

/// Two to the power of `e`.
pub open spec fn two_to(e: nat) -> nat
    decreases e,
{
    if e == 0 {
        1
    } else {
        2 * two_to((e - 1) as nat)
    }
}

/// The quotient of `num` by `den`, rounded to the nearest integer; a tie goes
/// to the even neighbour.
pub open spec fn nearest(num: nat, den: nat) -> nat {
    let q = num / den;
    let r = num % den;
    if 2 * r < den || (2 * r == den && q % 2 == 0) {
        q
    } else {
        q + 1
    }
}

/// How many low bits of `p` lie below a significand that starts at its top bit.
pub open spec fn excess(p: nat) -> nat
    decreases p,
{
    if p < SIGNIFICAND_LIMIT {
        0
    } else {
        1 + excess(p / 2)
    }
}

/// `p` rounded to the precision of a significand.
pub open spec fn rounded(p: nat) -> nat {
    let unit = two_to(excess(p));
    nearest(p, unit) * unit
}

/// How often `num` has to be doubled until `num / den` reaches the smallest
/// normal significand.
pub open spec fn doublings(num: nat, den: nat) -> nat
    decreases
            if num < HIDDEN_BIT * den {
                HIDDEN_BIT * den - num
            } else {
                0
            },
{
    if num == 0 || num >= HIDDEN_BIT * den {
        0
    } else {
        1 + doublings(2 * num, den)
    }
}

/// The single precision number nearest to `num / den`, for a quotient that is
/// zero or lies between two to the minus hundred and the significand limit.
pub open spec fn ratio(num: nat, den: nat) -> F32 {
    if num == 0 {
        F32 { bits: 0 }
    } else {
        let k = doublings(num, den);
        let q = nearest(num * two_to(k), den);
        F32 { bits: ((150 - k) * HIDDEN_BIT + (q - HIDDEN_BIT)) as u32 }
    }
}

impl F32 {
    /// Whether the sign bit is set.
    pub open spec fn negative(self) -> bool {
        self.bits >= 0x8000_0000
    }

    /// The exponent field.
    pub open spec fn exponent_field(self) -> int {
        (self.bits as int / HIDDEN_BIT as int) % 256
    }

    /// The fraction field.
    pub open spec fn fraction_field(self) -> int {
        self.bits as int % HIDDEN_BIT as int
    }

    /// Whether this is no number at all.
    pub open spec fn is_nan(self) -> bool {
        self.exponent_field() == 255 && self.fraction_field() != 0
    }

    /// Whether this is one of the two infinities.
    pub open spec fn is_infinite(self) -> bool {
        self.exponent_field() == 255 && self.fraction_field() == 0
    }

    /// The integer that the exponent scales to the magnitude of a finite number.
    pub open spec fn significand(self) -> nat {
        if self.exponent_field() == 0 {
            self.fraction_field() as nat
        } else {
            (HIDDEN_BIT + self.fraction_field()) as nat
        }
    }

    /// How far the exponent lies above the smallest one there is.
    pub open spec fn scaling(self) -> nat {
        if self.exponent_field() == 0 {
            0
        } else {
            (self.exponent_field() - 1) as nat
        }
    }

    /// The magnitude of a finite number, counted in the smallest positive one,
    /// of which it takes `two_to(149)` to make one.
    pub open spec fn units(self) -> nat {
        self.significand() * two_to(self.scaling())
    }

    /// Whether this is a number other than an infinity, and not below zero.
    pub open spec fn is_magnitude(self) -> bool {
        !self.negative() && self.exponent_field() != 255
    }

    /// Whether the magnitude of this number is at most that of another one.
    pub open spec fn magnitude_at_most(self, other: F32) -> bool {
        other.is_infinite() || (!self.is_infinite() && self.units() <= other.units())
    }

    /// Whether this is a number, and at most another one; the two zeros are equal.
    pub open spec fn at_most(self, other: F32) -> bool {
        &&& !self.is_nan() && !other.is_nan()
        &&& if self.negative() {
            other.negative() ==> other.magnitude_at_most(self)
        } else if other.negative() {
            self.magnitude_at_most(F32 { bits: 0 }) && other.magnitude_at_most(F32 { bits: 0 })
        } else {
            self.magnitude_at_most(other)
        }
    }

    /// The magnitude of a finite number times `n`, rounded to single precision,
    /// without its fractional part.
    pub open spec fn whole_part_of_product(self, n: nat) -> nat {
        rounded(n * self.units()) / two_to(149)
    }

    /// A colour channel times this gain: the product is rounded to single
    /// precision, loses its fractional part, and saturates at both ends of the
    /// channel's range. What is no number counts as zero.
    pub open spec fn scaled(self, channel: u8) -> u8 {
        if channel == 0 || self.is_nan() || self.negative() {
            0
        } else if self.is_infinite() {
            255
        } else {
            let whole = self.whole_part_of_product(channel as nat);
            if whole > 255 {
                255
            } else {
                whole as u8
            }
        }
    }

    /// Multiplies a colour channel by this gain; see `scaled`.
    pub fn scale(&self, channel: u8) -> (r: u8)
        ensures
            r == self.scaled(channel),
    {
        let exponent_field: u32 = (self.bits / HIDDEN_BIT) % 256;
        let fraction: u32 = self.bits % HIDDEN_BIT;
        if channel == 0 || self.bits >= 0x8000_0000 {
            return 0;
        }
        if exponent_field == 255 {
            return if fraction == 0 { 255 } else { 0 };
        }
        let significand: u32 = if exponent_field == 0 {
            fraction
        } else {
            HIDDEN_BIT + fraction
        };
        proof {
            lemma_product_bound(channel as nat, significand as nat);
        }
        let product: u64 = channel as u64 * significand as u64;
        let p: u64 = round_significand(product);
        proof {
            lemma_whole_part(*self, channel as nat);
        }
        if exponent_field >= 150 {
            proof {
                let up = two_to((self.scaling() - 149) as nat);
                lemma_rounded_lower(product as nat);
                lemma_two_to_positive((self.scaling() - 149) as nat);
                assert(p * up >= p) by (nonlinear_arith)
                    requires
                        up >= 1,
                        p >= 0,
                ;
            }
            return 255;
        }
        let shift: u32 = if exponent_field == 0 {
            149
        } else {
            150 - exponent_field
        };
        let whole: u64 = halved(p, shift);
        if whole > 255 {
            255
        } else {
            whole as u8
        }
    }

    /// The single precision number nearest to `num / den`.
    pub fn from_ratio(num: u32, den: u32) -> (r: F32)
        requires
            den > 0,
            num < SIGNIFICAND_LIMIT * den,
        ensures
            r == ratio(num as nat, den as nat),
    {
        if num == 0 {
            return F32 { bits: 0 };
        }
        let limit: u64 = 0x80_0000 * den as u64;
        let mut n: u64 = num as u64;
        let mut k: u32 = 0;
        assert(num * 1 == num);
        while n < limit
            invariant
                0 < den,
                0 < num,
                limit == HIDDEN_BIT * den,
                0 < n < 2 * limit <= 0x100_0000_0000_0000,
                k <= 56,
                n == num * two_to(k as nat),
                doublings(num as nat, den as nat) == k + doublings(n as nat, den as nat),
            decreases 2 * limit - n,
        {
            proof {
                lemma_small_power(num as nat, k as nat);
                let t = two_to(k as nat);
                assert(num * (2 * t) == 2 * (num * t)) by (nonlinear_arith);
            }
            n = 2 * n;
            k = k + 1;
        }
        proof {
            lemma_nearest_monotone(limit as nat, n as nat, den as nat);
            lemma_nearest_exact(HIDDEN_BIT as nat, den as nat);
            lemma_nearest_monotone(n as nat, (SIGNIFICAND_LIMIT * den) as nat, den as nat);
            lemma_nearest_exact(SIGNIFICAND_LIMIT as nat, den as nat);
            lemma_nearest_bounds(n as nat, den as nat);
        }
        let q: u64 = n / den as u64;
        let r: u64 = n % den as u64;
        let significand: u64 = if 2 * r < den as u64 || (2 * r == den as u64 && q % 2 == 0) {
            q
        } else {
            q + 1
        };
        assert(significand == nearest(n as nat, den as nat));
        F32 { bits: (150 - k) * HIDDEN_BIT + (significand as u32 - HIDDEN_BIT) }
    }
}

/// `p` rounded to the precision of a significand.
fn round_significand(p: u64) -> (r: u64)
    requires
        p < 0x1_0000_0000,
    ensures
        r == rounded(p as nat),
        r <= 0x2_0000_0000,
{
    let mut unit: u64 = 1;
    let mut top: u64 = p;
    let ghost mut s: nat = 0;
    while top >= SIGNIFICAND_LIMIT
        invariant
            top < 0x1_0000_0000,
            unit == two_to(s),
            unit * top <= p < 0x1_0000_0000,
            unit == 1 || top >= HIDDEN_BIT,
            excess(p as nat) == s + excess(top as nat),
        decreases top,
    {
        proof {
            let ghost half = top as int / 2;
            assert(2 * unit * half <= unit * top) by (nonlinear_arith)
                requires
                    2 * half <= top,
                    unit >= 0,
            ;
            assert(unit * 0x100_0000 <= unit * top) by (nonlinear_arith)
                requires
                    top >= 0x100_0000,
                    unit >= 0,
            ;
            s = s + 1;
        }
        top = top / 2;
        unit = 2 * unit;
    }
    proof {
        lemma_two_to_positive(s);
        lemma_nearest_bounds(p as nat, unit as nat);
        assert(unit <= 512) by (nonlinear_arith)
            requires
                unit == 1 || top >= 0x80_0000,
                unit * top <= p < 0x1_0000_0000,
        ;
    }
    let q: u64 = p / unit;
    let r: u64 = p % unit;
    let n: u64 = if 2 * r < unit || (2 * r == unit && q % 2 == 0) {
        q
    } else {
        q + 1
    };
    assert(n == nearest(p as nat, unit as nat));
    n * unit
}

/// `p` divided by `two_to(shift)`, rounded down.
fn halved(p: u64, shift: u32) -> (r: u64)
    ensures
        r == p as nat / two_to(shift as nat),
{
    let mut r: u64 = p;
    let mut i: u32 = 0;
    assert(p as nat / 1 == p);
    while i < shift
        invariant
            i <= shift,
            r == p as nat / two_to(i as nat),
        decreases shift - i,
    {
        proof {
            lemma_two_to_positive(i as nat);
            vstd::arithmetic::div_mod::lemma_div_denominator(
                p as int,
                two_to(i as nat) as int,
                2,
            );
        }
        r = r / 2;
        i = i + 1;
    }
    r
}

/// A power of two is positive.
pub proof fn lemma_two_to_positive(e: nat)
    ensures
        two_to(e) >= 1,
    decreases e,
{
    if e > 0 {
        lemma_two_to_positive((e - 1) as nat);
    }
}

/// Some powers of two.
pub proof fn lemma_powers()
    ensures
        two_to(23) == HIDDEN_BIT,
        two_to(24) == 0x100_0000,
        two_to(25) == 0x200_0000,
        two_to(56) == 0x100_0000_0000_0000,
{
    reveal_with_fuel(two_to, 57);
}

/// Exponents add up under multiplication.
pub proof fn lemma_two_to_adds(a: nat, b: nat)
    ensures
        two_to(a + b) == two_to(a) * two_to(b),
    decreases b,
{
    if b == 0 {
        assert(two_to(a) * 1 == two_to(a));
    } else {
        lemma_two_to_adds(a, (b - 1) as nat);
        assert(two_to(a) * (2 * two_to((b - 1) as nat)) == 2 * (two_to(a) * two_to(
            (b - 1) as nat,
        ))) by (nonlinear_arith);
    }
}

/// A greater exponent gives a greater power.
pub proof fn lemma_two_to_monotone(a: nat, b: nat)
    requires
        a <= b,
    ensures
        two_to(a) <= two_to(b),
    decreases b,
{
    if a < b {
        lemma_two_to_monotone(a, (b - 1) as nat);
    }
}

/// What rounding to the nearest integer moves is at most half a unit.
pub proof fn lemma_nearest_bounds(num: nat, den: nat)
    requires
        den > 0,
    ensures
        num / den <= nearest(num, den) <= num / den + 1,
        2 * (nearest(num, den) * den) <= 2 * num + den,
        2 * num <= 2 * (nearest(num, den) * den) + den,
{
    let q = num / den;
    let r = num % den;
    vstd::arithmetic::div_mod::lemma_fundamental_div_mod(num as int, den as int);
    assert(den * q == q * den) by (nonlinear_arith);
    assert((q + 1) * den == q * den + den) by (nonlinear_arith);
}

/// A multiple of the unit stays as it is.
pub proof fn lemma_nearest_exact(k: nat, den: nat)
    requires
        den > 0,
    ensures
        nearest(k * den, den) == k,
{
    vstd::arithmetic::div_mod::lemma_fundamental_div_mod_converse(
        (k * den) as int,
        den as int,
        k as int,
        0,
    );
}

/// Rounding to the nearest integer keeps the order.
pub proof fn lemma_nearest_monotone(a: nat, b: nat, den: nat)
    requires
        den > 0,
        a <= b,
    ensures
        nearest(a, den) <= nearest(b, den),
{
    vstd::arithmetic::div_mod::lemma_div_is_ordered(a as int, b as int, den as int);
    vstd::arithmetic::div_mod::lemma_fundamental_div_mod(a as int, den as int);
    vstd::arithmetic::div_mod::lemma_fundamental_div_mod(b as int, den as int);
}

/// The excess is the one that leaves a significand.
pub proof fn lemma_excess_range(p: nat)
    ensures
        p < SIGNIFICAND_LIMIT * two_to(excess(p)),
        excess(p) > 0 ==> p >= HIDDEN_BIT * two_to(excess(p)),
    decreases p,
{
    if p >= SIGNIFICAND_LIMIT {
        lemma_excess_range(p / 2);
    }
}

/// Rounding never leads below the leading significand's own range.
proof fn lemma_rounded_lower(p: nat)
    ensures
        p < SIGNIFICAND_LIMIT ==> rounded(p) == p,
        p >= HIDDEN_BIT ==> rounded(p) >= HIDDEN_BIT,
{
    let unit = two_to(excess(p));
    lemma_excess_range(p);
    lemma_two_to_positive(excess(p));
    if excess(p) == 0 {
        assert(p * 1 == p);
        lemma_nearest_exact(p, 1);
    } else {
        lemma_nearest_monotone((HIDDEN_BIT * unit) as nat, p, unit);
        lemma_nearest_exact(HIDDEN_BIT as nat, unit);
        assert(nearest(p, unit) * unit >= HIDDEN_BIT) by (nonlinear_arith)
            requires
                nearest(p, unit) >= HIDDEN_BIT,
                unit >= 1,
        ;
    }
}

/// Rounding to the precision of a significand keeps the order.
pub proof fn lemma_rounded_monotone(a: nat, b: nat)
    requires
        a <= b,
    ensures
        rounded(a) <= rounded(b),
{
    let ua = two_to(excess(a));
    let ub = two_to(excess(b));
    lemma_excess_monotone(a, b);
    lemma_excess_range(a);
    lemma_excess_range(b);
    lemma_two_to_positive(excess(a));
    lemma_two_to_positive(excess(b));
    if excess(a) == excess(b) {
        lemma_nearest_monotone(a, b, ua);
        assert(nearest(a, ua) * ua <= nearest(b, ua) * ua) by (nonlinear_arith)
            requires
                nearest(a, ua) <= nearest(b, ua),
                ua >= 0,
        ;
    } else {
        // The rounded `a` stays within its own binade, which ends where that of `b` begins
        // or before.
        lemma_two_to_monotone(excess(a) + 1, excess(b));
        lemma_nearest_monotone(a, (SIGNIFICAND_LIMIT * ua) as nat, ua);
        lemma_nearest_exact(SIGNIFICAND_LIMIT as nat, ua);
        lemma_nearest_monotone((HIDDEN_BIT * ub) as nat, b, ub);
        lemma_nearest_exact(HIDDEN_BIT as nat, ub);
        assert(nearest(a, ua) * ua <= 0x100_0000 * ua) by (nonlinear_arith)
            requires
                nearest(a, ua) <= 0x100_0000,
                ua >= 0,
        ;
        assert(0x80_0000 * ub <= nearest(b, ub) * ub) by (nonlinear_arith)
            requires
                nearest(b, ub) >= 0x80_0000,
                ub >= 0,
        ;
    }
}

/// A greater number has no smaller excess.
proof fn lemma_excess_monotone(a: nat, b: nat)
    requires
        a <= b,
    ensures
        excess(a) <= excess(b),
    decreases b,
{
    if a >= SIGNIFICAND_LIMIT {
        lemma_excess_monotone(a / 2, b / 2);
    }
}

/// Rounding is indifferent to the power of two that a number is counted in.
pub proof fn lemma_rounded_scales(p: nat, k: nat)
    ensures
        rounded(p * two_to(k)) == rounded(p) * two_to(k),
    decreases k,
{
    if k == 0 {
        assert(p * 1 == p);
        assert(rounded(p) * 1 == rounded(p));
    } else {
        let t = two_to((k - 1) as nat);
        lemma_rounded_scales(p, (k - 1) as nat);
        lemma_rounded_doubles(p * t);
        assert(p * (2 * t) == 2 * (p * t)) by (nonlinear_arith);
        assert(rounded(p) * (2 * t) == 2 * (rounded(p) * t)) by (nonlinear_arith);
    }
}

/// Rounding a doubled number doubles the rounded one.
proof fn lemma_rounded_doubles(x: nat)
    ensures
        rounded(2 * x) == 2 * rounded(x),
{
    let unit = two_to(excess(x));
    lemma_two_to_positive(excess(x));
    if 2 * x < SIGNIFICAND_LIMIT {
        lemma_rounded_lower(x);
        lemma_rounded_lower(2 * x);
    } else {
        assert((2 * x) / 2 == x);
        assert(excess(2 * x) == 1 + excess(x));
        assert(two_to(1 + excess(x)) == 2 * unit);
        let q = x / unit;
        let r = x % unit;
        vstd::arithmetic::div_mod::lemma_fundamental_div_mod(x as int, unit as int);
        assert((2 * unit) * q == 2 * (unit * q)) by (nonlinear_arith);
        assert(q * (2 * unit) == (2 * unit) * q) by (nonlinear_arith);
        vstd::arithmetic::div_mod::lemma_fundamental_div_mod_converse(
            (2 * x) as int,
            (2 * unit) as int,
            q as int,
            (2 * r) as int,
        );
        let n = nearest(x, unit);
        assert(n * (2 * unit) == 2 * (n * unit)) by (nonlinear_arith);
    }
}

/// The whole part of a product, from the significand and the exponent.
proof fn lemma_whole_part(g: F32, n: nat)
    ensures
        g.scaling() >= 149 ==> g.whole_part_of_product(n) == rounded(n * g.significand())
            * two_to((g.scaling() - 149) as nat),
        g.scaling() <= 149 ==> g.whole_part_of_product(n) == rounded(n * g.significand())
            / two_to((149 - g.scaling()) as nat),
{
    let k = g.scaling();
    let p = n * g.significand();
    let t = two_to(k);
    assert(n * (g.significand() * t) == p * t) by (nonlinear_arith)
        requires
            p == n * g.significand(),
    ;
    lemma_rounded_scales(p, k);
    let v = rounded(p);
    if k >= 149 {
        let up = two_to((k - 149) as nat);
        lemma_two_to_adds((k - 149) as nat, 149);
        lemma_two_to_positive(149);
        let one = two_to(149);
        assert(v * (up * one) == one * (v * up)) by (nonlinear_arith);
        vstd::arithmetic::div_mod::lemma_div_multiples_vanish((v * up) as int, one as int);
    }
    if k <= 149 {
        let down = two_to((149 - k) as nat);
        lemma_two_to_adds((149 - k) as nat, k);
        lemma_two_to_positive((149 - k) as nat);
        lemma_two_to_positive(k);
        assert(v * t == t * v) by (nonlinear_arith);
        assert(down * t == t * down) by (nonlinear_arith);
        vstd::arithmetic::div_mod::lemma_div_multiples_vanish(v as int, t as int);
        vstd::arithmetic::div_mod::lemma_div_denominator((t * v) as int, t as int, down as int);
    }
}

/// The number of doublings is the one that makes a quotient a normal significand.
pub proof fn lemma_doublings_range(num: nat, den: nat)
    requires
        0 < num < SIGNIFICAND_LIMIT * den,
        den <= 0xffff_ffff,
    ensures
        HIDDEN_BIT * den <= num * two_to(doublings(num, den)) < SIGNIFICAND_LIMIT * den,
        doublings(num, den) <= 56,
    decreases
            if num < HIDDEN_BIT * den {
                HIDDEN_BIT * den - num
            } else {
                0
            },
{
    let k = doublings(num, den);
    if num >= HIDDEN_BIT * den {
        assert(num * 1 == num);
    } else {
        lemma_doublings_range(2 * num, den);
        let t = two_to((k - 1) as nat);
        assert(num * (2 * t) == (2 * num) * t) by (nonlinear_arith);
        assert(num * t + num * t == (2 * num) * t) by (nonlinear_arith);
        lemma_small_power(num, (k - 1) as nat);
    }
}

/// A greater numerator needs no more doublings.
proof fn lemma_doublings_monotone(a: nat, b: nat, den: nat)
    requires
        0 < a <= b,
    ensures
        doublings(a, den) >= doublings(b, den),
    decreases
            if b < HIDDEN_BIT * den {
                HIDDEN_BIT * den - b
            } else {
                0
            },
{
    if b < HIDDEN_BIT * den {
        lemma_doublings_monotone(2 * a, 2 * b, den);
    }
}

/// What the bit pattern of a quotient says of its magnitude.
pub proof fn lemma_ratio_units(num: nat, den: nat)
    requires
        0 < num < SIGNIFICAND_LIMIT * den,
        den <= 0xffff_ffff,
    ensures
        ratio(num, den).is_magnitude(),
        ratio(num, den).units() == nearest(num * two_to(doublings(num, den)), den) * two_to(
            (149 - doublings(num, den)) as nat,
        ),
        HIDDEN_BIT <= nearest(num * two_to(doublings(num, den)), den) <= SIGNIFICAND_LIMIT,
{
    let k = doublings(num, den);
    let n = num * two_to(k);
    let q = nearest(n, den);
    lemma_doublings_range(num, den);
    lemma_nearest_monotone((HIDDEN_BIT * den) as nat, n, den);
    lemma_nearest_exact(HIDDEN_BIT as nat, den);
    lemma_nearest_monotone(n, (SIGNIFICAND_LIMIT * den) as nat, den);
    lemma_nearest_exact(SIGNIFICAND_LIMIT as nat, den);
    let r = ratio(num, den);
    if q == SIGNIFICAND_LIMIT {
        let t = two_to((149 - k) as nat);
        assert(r.exponent_field() == 151 - k && r.fraction_field() == 0);
        assert(two_to((150 - k) as nat) == 2 * t);
        assert(0x80_0000 * (2 * t) == 0x100_0000 * t);
    } else {
        assert(r.exponent_field() == 150 - k && r.fraction_field() == q - HIDDEN_BIT);
        assert(r.significand() == q);
    }
}

/// Quotients by the same denominator keep their order when they are rounded.
pub proof fn lemma_ratio_monotone(a: nat, b: nat, den: nat)
    requires
        a <= b < SIGNIFICAND_LIMIT * den,
        den <= 0xffff_ffff,
    ensures
        ratio(a, den).units() <= ratio(b, den).units(),
{
    if a == 0 {
        let zero = ratio(0, den);
        assert(zero.significand() == 0);
        assert(zero.units() == 0) by (nonlinear_arith)
            requires
                zero.units() == 0 * two_to(zero.scaling()),
        ;
    } else {
        let ka = doublings(a, den);
        let kb = doublings(b, den);
        let qa = nearest(a * two_to(ka), den);
        let qb = nearest(b * two_to(kb), den);
        let ta = two_to((149 - ka) as nat);
        let tb = two_to((149 - kb) as nat);
        lemma_doublings_range(a, den);
        lemma_doublings_range(b, den);
        lemma_doublings_monotone(a, b, den);
        lemma_ratio_units(a, den);
        lemma_ratio_units(b, den);
        if ka == kb {
            let t = two_to(ka);
            assert(a * t <= b * t) by (nonlinear_arith)
                requires
                    a <= b,
            ;
            lemma_nearest_monotone(a * t, b * t, den);
            assert(qa * ta <= qb * ta) by (nonlinear_arith)
                requires
                    qa <= qb,
            ;
        } else {
            lemma_two_to_monotone((150 - ka) as nat, (149 - kb) as nat);
            assert(qa * ta <= 0x100_0000 * ta) by (nonlinear_arith)
                requires
                    qa <= 0x100_0000,
            ;
            assert(0x80_0000 * tb <= qb * tb) by (nonlinear_arith)
                requires
                    qb >= 0x80_0000,
            ;
        }
    }
}

/// A number divided by itself is one.
pub proof fn lemma_ratio_self(den: nat)
    requires
        den > 0,
    ensures
        ratio(den, den) == ratio(1, 1),
{
    lemma_ratio_cancel(1, 1, den);
    assert(1 * den == den);
}

/// A common factor makes no difference to a quotient.
pub proof fn lemma_ratio_cancel(num: nat, den: nat, factor: nat)
    requires
        den > 0,
        factor > 0,
    ensures
        ratio(num * factor, den * factor) == ratio(num, den),
{
    lemma_doublings_cancel(num, den, factor);
    assert(num * factor == 0 <==> num == 0) by (nonlinear_arith)
        requires
            factor > 0,
    ;
    let t = two_to(doublings(num, den));
    assert((num * factor) * t == (num * t) * factor) by (nonlinear_arith);
    lemma_nearest_cancel(num * t, den, factor);
}

/// A common factor makes no difference to the nearest integer.
pub proof fn lemma_nearest_cancel(num: nat, den: nat, factor: nat)
    requires
        den > 0,
        factor > 0,
    ensures
        nearest(num * factor, den * factor) == nearest(num, den),
{
    let q = num / den;
    let r = num % den;
    vstd::arithmetic::div_mod::lemma_fundamental_div_mod(num as int, den as int);
    assert(num * factor == q * (den * factor) + r * factor) by (nonlinear_arith)
        requires
            num == den * q + r,
    ;
    assert(0 <= r * factor < den * factor) by (nonlinear_arith)
        requires
            0 <= r < den,
            factor > 0,
    ;
    vstd::arithmetic::div_mod::lemma_fundamental_div_mod_converse(
        (num * factor) as int,
        (den * factor) as int,
        q as int,
        (r * factor) as int,
    );
    assert(2 * (r * factor) < den * factor <==> 2 * r < den) by (nonlinear_arith)
        requires
            factor > 0,
    ;
    assert(2 * (r * factor) == den * factor <==> 2 * r == den) by (nonlinear_arith)
        requires
            factor > 0,
    ;
}

/// A common factor makes no difference to the number of doublings.
proof fn lemma_doublings_cancel(num: nat, den: nat, factor: nat)
    requires
        den > 0,
        factor > 0,
    ensures
        doublings(num * factor, den * factor) == doublings(num, den),
    decreases
            if num < HIDDEN_BIT * den {
                HIDDEN_BIT * den - num
            } else {
                0
            },
{
    assert(num * factor == 0 <==> num == 0) by (nonlinear_arith)
        requires
            factor > 0,
    ;
    assert(num * factor >= 0x80_0000 * (den * factor) <==> num >= 0x80_0000 * den)
        by (nonlinear_arith)
        requires
            factor > 0,
    ;
    if num != 0 && num < HIDDEN_BIT * den {
        assert((2 * num) * factor == 2 * (num * factor)) by (nonlinear_arith);
        lemma_doublings_cancel(2 * num, den, factor);
    }
}

/// A number that is still below the smallest normal significand of a 32-bit
/// denominator has not been doubled often.
proof fn lemma_small_power(num: nat, k: nat)
    requires
        0 < num,
        num * two_to(k) < HIDDEN_BIT * 0x1_0000_0000,
    ensures
        k < 56,
{
    let t = two_to(k);
    assert(t <= num * t) by (nonlinear_arith)
        requires
            0 < num,
            t >= 0,
    ;
    if k >= 56 {
        lemma_two_to_monotone(56, k);
        lemma_powers();
    }
}

/// A channel times a significand stays within thirty-two bits.
proof fn lemma_product_bound(channel: nat, significand: nat)
    requires
        0 < channel < 256,
        significand < SIGNIFICAND_LIMIT,
    ensures
        significand <= channel * significand < 0x1_0000_0000,
{
    assert(significand <= channel * significand < 256 * 0x100_0000) by (nonlinear_arith)
        requires
            0 < channel < 256,
            0 <= significand < 0x100_0000,
    ;
}

/// The gain of one leaves every channel as it is.
pub proof fn law_unit_gain_keeps_channel(channel: u8)
    ensures
        ratio(1, 1).scaled(channel) == channel,
{
    lemma_ratio_one();
    let n = channel as nat;
    let one = two_to(149);
    assert(ratio(1, 1).units() == one) by {
        lemma_two_to_adds(23, 126);
        lemma_powers();
    }
    lemma_rounded_scales(n, 149);
    lemma_rounded_lower(n);
    lemma_two_to_positive(149);
    assert(n * one == one * n) by (nonlinear_arith);
    vstd::arithmetic::div_mod::lemma_div_multiples_vanish(n as int, one as int);
}

/// The gain of zero turns every channel off.
pub proof fn law_zero_gain_turns_off(channel: u8)
    ensures
        ratio(0, 1).scaled(channel) == 0,
{
    lemma_nothing();
    lemma_scaled_by_nothing(ratio(0, 1), channel);
}

/// A greater gain never gives a darker channel, nor does a brighter channel under
/// the same gain.
pub proof fn law_scaling_keeps_order(a: F32, b: F32, c: u8, d: u8)
    requires
        a.at_most(b),
        c <= d,
    ensures
        a.scaled(c) <= b.scaled(d),
{
    let m = c as nat;
    let n = d as nat;
    if b.negative() && !a.negative() {
        lemma_nothing();
        lemma_scaled_by_nothing(a, c);
    } else if !a.is_infinite() && !b.is_infinite() && !a.negative() {
        assert(m * a.units() <= n * b.units()) by (nonlinear_arith)
            requires
                m <= n,
                a.units() <= b.units(),
        ;
        lemma_rounded_monotone(m * a.units(), n * b.units());
        lemma_two_to_positive(149);
        vstd::arithmetic::div_mod::lemma_div_is_ordered(
            rounded(m * a.units()) as int,
            rounded(n * b.units()) as int,
            two_to(149) as int,
        );
    }
}

/// A brighter channel never gets darker than another one under the same gain, whatever the
/// gain is.
pub proof fn law_scaling_keeps_order_of_channels(gain: F32, c: u8, d: u8)
    requires
        c <= d,
    ensures
        gain.scaled(c) <= gain.scaled(d),
{
    if !gain.is_nan() {
        law_scaling_keeps_order(gain, gain, c, d);
    }
}

/// Zero has no magnitude.
proof fn lemma_nothing()
    ensures
        (F32 { bits: 0 }).units() == 0,
{
    let g = F32 { bits: 0 };
    assert(g.significand() == 0);
    assert(0 * two_to(g.scaling()) == 0);
}

/// A gain without magnitude turns every channel off.
proof fn lemma_scaled_by_nothing(g: F32, channel: u8)
    requires
        !g.is_infinite(),
        g.units() == 0,
    ensures
        g.scaled(channel) == 0,
{
    let n = channel as nat;
    assert(n * 0 == 0);
    lemma_rounded_lower(0);
    lemma_two_to_positive(149);
    vstd::arithmetic::div_mod::lemma_div_of0(two_to(149) as int);
}

/// A gain of at most one never makes a channel brighter.
pub proof fn law_gain_up_to_one_never_brightens(g: F32, channel: u8)
    requires
        g.at_most(ratio(1, 1)),
    ensures
        g.scaled(channel) <= channel,
{
    law_scaling_keeps_order(g, ratio(1, 1), channel, channel);
    law_unit_gain_keeps_channel(channel);
}

/// The bit pattern of one.
pub proof fn lemma_ratio_one()
    ensures
        ratio(1, 1) == (F32 { bits: 0x3f80_0000 }),
{
    assert(doublings(1, 1) == 23) by {
        reveal_with_fuel(doublings, 24);
    }
    lemma_powers();
    lemma_nearest_exact(HIDDEN_BIT as nat, 1);
}

/// A whole number that fits a significand is not rounded.
pub proof fn lemma_whole_ratio(n: nat)
    requires
        0 < n < SIGNIFICAND_LIMIT,
    ensures
        ratio(n, 1).is_magnitude(),
        ratio(n, 1).units() == n * two_to(149),
{
    let k = doublings(n, 1);
    let t = two_to(k);
    let u = two_to((149 - k) as nat);
    lemma_doublings_range(n, 1);
    lemma_ratio_units(n, 1);
    assert((n * t) * 1 == n * t);
    lemma_nearest_exact(n * t, 1);
    lemma_two_to_adds(k, (149 - k) as nat);
    assert((n * t) * u == n * (t * u)) by (nonlinear_arith);
}

/// Rounding to the nearest integer finds the nearest one, and of two equally near ones the
/// even one.
pub proof fn law_nearest_is_nearest(num: nat, den: nat, m: nat)
    requires
        den > 0,
    ensures
        ({
            let here = vstd::math::abs(nearest(num, den) * den - num);
            let there = vstd::math::abs(m * den - num);
            &&& here <= there
            &&& here == there && m != nearest(num, den) ==> nearest(num, den) % 2 == 0
        }),
{
    let n = nearest(num, den);
    let q = num / den;
    vstd::arithmetic::div_mod::lemma_fundamental_div_mod(num as int, den as int);
    assert(den * q == q * den) by (nonlinear_arith);
    assert((q + 1) * den == q * den + den) by (nonlinear_arith);
    if m > q + 1 {
        assert(m * den >= (q + 2) * den) by (nonlinear_arith)
            requires
                m >= q + 2,
        ;
        assert((q + 2) * den == q * den + 2 * den) by (nonlinear_arith);
    } else if m < q {
        assert((m + 1) * den <= q * den) by (nonlinear_arith)
            requires
                m + 1 <= q,
        ;
        assert((m + 1) * den == m * den + den) by (nonlinear_arith);
    }
}

/// Rounding to the precision of a significand moves a number by no more than one part in two
/// to the twenty-four.
proof fn lemma_rounded_error(p: nat)
    ensures
        -(p as int) <= (rounded(p) - p) * 0x100_0000 <= p,
{
    let unit = two_to(excess(p));
    lemma_excess_range(p);
    lemma_two_to_positive(excess(p));
    if excess(p) == 0 {
        lemma_rounded_lower(p);
    } else {
        lemma_nearest_bounds(p, unit);
    }
}

/// A scaled channel is the product of the channel and the gain without its fractional part,
/// up to one part in two to the twenty-four of the product; what is more than the channel
/// can hold gives the most that it can hold.
pub proof fn law_scaling_multiplies(g: F32, channel: u8)
    requires
        g.is_magnitude(),
    ensures
        ({
            let product = channel * g.units();
            let one = two_to(149);
            let r = g.scaled(channel);
            &&& r * one * 0x100_0000 <= product * 0x100_0001
            &&& r < 255 ==> product * 0xff_ffff < (r + 1) * one * 0x100_0000
        }),
{
    let n = channel as nat;
    let one = two_to(149);
    let p = n * g.units();
    let r = g.scaled(channel) as nat;
    lemma_two_to_positive(149);
    lemma_rounded_error(p);
    if channel == 0 {
        assert(0 * g.units() == 0);
        assert(r == 0);
        assert(0 * one == 0);
    } else {
        let whole = g.whole_part_of_product(n);
        vstd::arithmetic::div_mod::lemma_fundamental_div_mod(rounded(p) as int, one as int);
        assert(one * whole == whole * one) by (nonlinear_arith);
        assert((whole + 1) * one == whole * one + one) by (nonlinear_arith);
        assert(r * one <= whole * one) by (nonlinear_arith)
            requires
                r <= whole,
        ;
    }
}

/// A gain below zero and what is no number turn a channel off; an infinite gain makes it as
/// bright as it can be unless it is off.
pub proof fn law_scaling_by_special_numbers(g: F32, channel: u8)
    ensures
        g.negative() || g.is_nan() ==> g.scaled(channel) == 0,
        g.is_infinite() && !g.negative() ==> g.scaled(channel) == if channel == 0 {
            0u8
        } else {
            255
        },
{
}

/// The rounded quotient of two numbers is their quotient up to one part in two to the
/// twenty-four.
pub proof fn law_ratio_is_accurate(num: nat, den: nat)
    requires
        num < SIGNIFICAND_LIMIT * den,
        den <= 0xffff_ffff,
    ensures
        ({
            let exact = num * two_to(149);
            let error = ratio(num, den).units() * den - exact;
            -(exact as int) <= error * 0x100_0000 <= exact
        }),
{
    let one = two_to(149);
    if num == 0 {
        lemma_nothing();
        assert(0 * one == 0);
        assert(0 * den == 0);
    } else {
        let k = doublings(num, den);
        let t = two_to(k);
        let u = two_to((149 - k) as nat);
        let n = num * t;
        let q = nearest(n, den);
        lemma_doublings_range(num, den);
        lemma_ratio_units(num, den);
        lemma_nearest_bounds(n, den);
        lemma_two_to_adds(k, (149 - k) as nat);
        assert(num * (t * u) == (num * t) * u) by (nonlinear_arith);
        assert((q * u) * den == (q * den) * u) by (nonlinear_arith);
        assert(-n <= (q * den - n) * 0x100_0000 <= n);
        assert(-(n * u) <= (q * den * u - n * u) * 0x100_0000 <= n * u) by (nonlinear_arith)
            requires
                -n <= (q * den - n) * 0x100_0000 <= n,
                u >= 0,
        ;
    }
}

} // verus!
