//! IEEE-754 double precision numbers, held as their bit patterns.
//!
//! The badge counts time in seconds, as 64-bit floating point numbers. The arithmetic that
//! decides when something ends is done here on integers, with the rounding that the
//! standard prescribes.
use vstd::prelude::*;

verus! {

/// A double precision number: one sign bit, eleven exponent bits, and fifty-two fraction
/// bits, from the most significant bit down.
#[derive(Clone, Copy, Debug, PartialEq, Eq, Structural)]
pub struct F64 {
    pub bits: u64,
}

/// The weight of the lowest exponent bit, and the smallest normal significand.
pub const HIDDEN_BIT: u64 = 0x10_0000_0000_0000;

/// The first integer that does not fit a significand.
pub const SIGNIFICAND_LIMIT: u64 = 0x20_0000_0000_0000;

/// The weight of the sign bit.
pub const SIGN_BIT: u64 = 0x8000_0000_0000_0000;

/// The bit pattern of the positive infinity.
pub const INFINITY: u64 = 0x7ff0_0000_0000_0000;

/// How often `den` has to be doubled until `num / den` fits a significand.
pub open spec fn binade(num: nat, den: nat) -> nat
    decreases
            if den > 0 && num >= SIGNIFICAND_LIMIT * den {
                num - SIGNIFICAND_LIMIT * den + 1
            } else {
                0
            },
{
    if den == 0 || num < SIGNIFICAND_LIMIT * den {
        0
    } else {
        1 + binade(num, 2 * den)
    }
}

/// The double precision number nearest to `num / den`, counted in the smallest positive
/// one; a tie goes to the even neighbour, and what is too great gives the infinity.
pub open spec fn from_units(num: nat, den: nat) -> F64 {
    let e = binade(num, den);
    let bits = e * HIDDEN_BIT + crate::float::nearest(num, den * crate::float::two_to(e));
    F64 {
        bits: if bits < INFINITY {
            bits as u64
        } else {
            INFINITY
        },
    }
}

/// The double precision number nearest to `num / den`.
pub open spec fn quotient(num: nat, den: nat) -> F64 {
    from_units(num * crate::float::two_to(1074), den)
}

/// The sum of two finite numbers. A sum of zero is negative only where both are.
pub open spec fn sum_of(a: F64, b: F64) -> F64 {
    let v = a.value() + b.value();
    if v > 0 {
        from_units(v as nat, 1)
    } else if v < 0 {
        from_units((-v) as nat, 1).negated()
    } else if a.negative() && b.negative() {
        F64 { bits: SIGN_BIT }
    } else {
        F64 { bits: 0 }
    }
}

/// A reading of the clock, in seconds: the count of microseconds becomes a double precision
/// number, which is then divided by a million.
pub open spec fn seconds_of(microseconds: u64) -> F64 {
    from_units(quotient(microseconds as nat, 1).units(), 1_000_000)
}

/// The time from one reading of the clock to another, in seconds.
pub open spec fn time_between(from: u64, to: u64) -> F64 {
    sum_of(seconds_of(to), seconds_of(from).negated())
}

impl F64 {
    /// Whether the sign bit is set.
    pub open spec fn negative(self) -> bool {
        self.bits >= SIGN_BIT
    }

    /// The number with the opposite sign.
    pub open spec fn negated(self) -> F64 {
        if self.negative() {
            F64 { bits: (self.bits - SIGN_BIT) as u64 }
        } else {
            F64 { bits: (self.bits + SIGN_BIT) as u64 }
        }
    }

    /// The exponent field.
    pub open spec fn exponent_field(self) -> int {
        (self.bits as int / HIDDEN_BIT as int) % 2048
    }

    /// The fraction field.
    pub open spec fn fraction_field(self) -> int {
        self.bits as int % HIDDEN_BIT as int
    }

    /// Whether this is no number at all.
    pub open spec fn is_nan(self) -> bool {
        self.exponent_field() == 2047 && self.fraction_field() != 0
    }

    /// Whether this is one of the two infinities.
    pub open spec fn is_infinite(self) -> bool {
        self.exponent_field() == 2047 && self.fraction_field() == 0
    }

    /// Whether this is a number other than an infinity.
    pub open spec fn is_finite(self) -> bool {
        self.exponent_field() != 2047
    }

    /// The integer that the exponent scales to the magnitude of a finite number.
    pub open spec fn significand(self) -> nat {
        if self.exponent_field() == 0 {
            self.fraction_field() as nat
        } else {
            (HIDDEN_BIT + self.fraction_field()) as nat
        }
    }

    /// How far the exponent lies above the smallest one there is.
    pub open spec fn scaling(self) -> nat {
        if self.exponent_field() == 0 {
            0
        } else {
            (self.exponent_field() - 1) as nat
        }
    }

    /// The magnitude of a finite number, counted in the smallest positive one, of which it
    /// takes `two_to(1074)` to make one.
    pub open spec fn units(self) -> nat {
        self.significand() * crate::float::two_to(self.scaling())
    }

    /// A finite number, counted in the smallest positive one.
    pub open spec fn value(self) -> int {
        if self.negative() {
            -(self.units() as int)
        } else {
            self.units() as int
        }
    }

    /// Whether this is a number greater than another one.
    pub open spec fn exceeds(self, other: F64) -> bool {
        if self.is_nan() || other.is_nan() {
            false
        } else if self.is_infinite() {
            !self.negative() && !(other.is_infinite() && !other.negative())
        } else if other.is_infinite() {
            other.negative()
        } else {
            self.value() > other.value()
        }
    }

    /// Whether this is zero, or a finite number whose exponent lies within these bounds.
    pub open spec fn is_scaled_within(self, low: nat, high: nat) -> bool {
        self.is_finite() && (self.significand() == 0 || low <= self.scaling() <= high)
    }

    /// Whether this can be the time between two readings of the clock: it is zero, or its
    /// magnitude is at least two to the minus seventy-two and less than two to the
    /// forty-nine.
    pub open spec fn is_time(self) -> bool {
        self.is_scaled_within(950, 1070)
    }

    /// Whether this is a number greater than another one; see `exceeds`.
    pub fn is_greater(&self, other: F64) -> (r: bool)
        ensures
            r == self.exceeds(other),
    {
        let a: u64 = self.bits % SIGN_BIT;
        let b: u64 = other.bits % SIGN_BIT;
        proof {
            if self.is_finite() && other.is_finite() {
                lemma_order_of_magnitudes(*self, other);
                lemma_order_of_magnitudes(other, *self);
                lemma_zero(*self);
                lemma_zero(other);
            }
        }
        if a > INFINITY || b > INFINITY {
            false
        } else if self.bits < SIGN_BIT {
            if other.bits < SIGN_BIT {
                a > b
            } else {
                a != 0 || b != 0
            }
        } else if other.bits < SIGN_BIT {
            false
        } else {
            a < b
        }
    }

    /// The time from one reading of the clock to another, in seconds; both are counts of
    /// microseconds.
    pub fn between(from: u64, to: u64) -> (t: F64)
        ensures
            t == time_between(from, to),
            t.is_time(),
    {
        let start = seconds(from);
        let end = seconds(to);
        let minus = if start.bits < SIGN_BIT {
            F64 { bits: start.bits + SIGN_BIT }
        } else {
            F64 { bits: start.bits - SIGN_BIT }
        };
        proof {
            lemma_seconds_range(from);
            lemma_seconds_range(to);
            lemma_negated(start);
            lemma_sum_range(end, minus, 950, 1068);
        }
        sum(end, minus)
    }

    /// The moment one second later.
    pub fn one_second_later(&self) -> (later: F64)
        requires
            self.is_time(),
        ensures
            later == sum_of(*self, quotient(1, 1)),
    {
        proof {
            lemma_quotient_one();
        }
        sum(*self, F64 { bits: 0x3ff0_0000_0000_0000 })
    }

    /// Half a second.
    pub fn half_a_second() -> (t: F64)
        ensures
            t == quotient(1, 2),
    {
        proof {
            lemma_quotient_half();
        }
        F64 { bits: 0x3fe0_0000_0000_0000 }
    }

    /// The significand of a finite number, and how far its exponent lies above the smallest
    /// one.
    fn parts(&self) -> (parts: (u64, u32))
        requires
            self.is_finite(),
        ensures
            parts.0 == self.significand(),
            parts.0 < SIGNIFICAND_LIMIT,
            parts.1 == self.scaling(),
    {
        let exponent_field: u64 = (self.bits / HIDDEN_BIT) % 2048;
        let fraction: u64 = self.bits % HIDDEN_BIT;
        if exponent_field == 0 {
            (fraction, 0)
        } else {
            (HIDDEN_BIT + fraction, (exponent_field - 1) as u32)
        }
    }
}

/// A reading of the clock, in seconds; see `seconds_of`.
fn seconds(microseconds: u64) -> (t: F64)
    ensures
        t == seconds_of(microseconds),
{
    proof {
        lemma_seconds_range(microseconds);
    }
    if microseconds == 0 {
        proof {
            lemma_seconds_of_zero();
        }
        return F64 { bits: 0 };
    }
    let count = rounded_quotient(microseconds as u128, 1, 1074);
    proof {
        lemma_count_range(microseconds);
    }
    let (significand, scaling) = count.parts();
    rounded_quotient(significand as u128, 1_000_000, scaling)
}

/// The number nearest to `num / den` times a power of two.
fn rounded_quotient(num: u128, den: u64, scale: u32) -> (r: F64)
    requires
        0 < num < 0x4000_0000_0000_0000_0000_0000_0000_0000,
        0 < den <= 0x10_0000,
        73 <= scale <= 1800,
    ensures
        r == from_units(num as nat * crate::float::two_to(scale as nat), den as nat),
{
    let mut n: u128 = num;
    let mut down: u32 = 0;
    assert(num * 1 == num);
    while n < 0x10_0000_0000_0000 * den as u128
        invariant
            0 < num,
            0 < den <= 0x10_0000,
            0 < n < 0x4000_0000_0000_0000_0000_0000_0000_0000,
            down <= 72,
            n == num * crate::float::two_to(down as nat),
        decreases 0x20_0000_0000_0000 * den - n,
    {
        proof {
            let t = crate::float::two_to(down as nat);
            lemma_powers();
            lemma_factor_bound(num as nat, down as nat, 72);
            assert(num * (2 * t) == 2 * (num * t)) by (nonlinear_arith);
        }
        n = 2 * n;
        down = down + 1;
    }
    let mut d: u128 = den as u128;
    let mut up: u32 = 0;
    assert(den * 1 == den);
    while n >= 0x20_0000_0000_0000 * d
        invariant
            0 < den <= 0x10_0000,
            0 < d,
            0x10_0000_0000_0000 * d <= n < 0x4000_0000_0000_0000_0000_0000_0000_0000,
            up <= 73,
            d == den * crate::float::two_to(up as nat),
        decreases n - 0x10_0000_0000_0000 * d,
    {
        proof {
            let t = crate::float::two_to(up as nat);
            lemma_powers();
            lemma_factor_bound(den as nat, up as nat, 73);
            assert(den * (2 * t) == 2 * (den * t)) by (nonlinear_arith);
        }
        d = 2 * d;
        up = up + 1;
    }
    let e: u64 = (scale - down + up) as u64;
    proof {
        lemma_common_scale(
            num as nat,
            den as nat,
            n as nat,
            d as nat,
            scale as nat,
            down as nat,
            up as nat,
        );
        crate::float::lemma_nearest_monotone(n as nat, (SIGNIFICAND_LIMIT * d) as nat, d as nat);
        crate::float::lemma_nearest_exact(SIGNIFICAND_LIMIT as nat, d as nat);
        crate::float::lemma_nearest_bounds(n as nat, d as nat);
    }
    let q: u128 = n / d;
    let r: u128 = n % d;
    let significand: u128 = if 2 * r < d || (2 * r == d && q % 2 == 0) {
        q
    } else {
        q + 1
    };
    assert(significand == crate::float::nearest(n as nat, d as nat));
    F64 { bits: e * HIDDEN_BIT + significand as u64 }
}

/// The sum of two numbers whose exponents are not too far apart; see `sum_of`.
fn sum(a: F64, b: F64) -> (r: F64)
    requires
        a.is_scaled_within(73, 1800),
        b.is_scaled_within(73, 1800),
        a.significand() > 0 && b.significand() > 0 ==> -72 <= a.scaling() - b.scaling() <= 72,
    ensures
        r == sum_of(a, b),
{
    let (ma, ea) = a.parts();
    let (mb, eb) = b.parts();
    let low: u32 = if ma == 0 {
        eb
    } else if mb == 0 {
        ea
    } else if ea < eb {
        ea
    } else {
        eb
    };
    let x: u128 = if ma == 0 {
        0
    } else {
        doubled(ma, ea - low)
    };
    let y: u128 = if mb == 0 {
        0
    } else {
        doubled(mb, eb - low)
    };
    proof {
        lemma_aligned(a, low as nat, x as nat);
        lemma_aligned(b, low as nat, y as nat);
        lemma_aligned_sum(a, b, low as nat, x as nat, y as nat);
    }
    let below_a: bool = a.bits >= SIGN_BIT;
    let below_b: bool = b.bits >= SIGN_BIT;
    if below_a == below_b {
        if x + y == 0 {
            return if below_a {
                F64 { bits: SIGN_BIT }
            } else {
                F64 { bits: 0 }
            };
        }
        signed(below_a, x + y, low)
    } else if x == y {
        F64 { bits: 0 }
    } else if x > y {
        signed(below_a, x - y, low)
    } else {
        signed(below_b, y - x, low)
    }
}

/// The number nearest to `num` times a power of two, with this sign.
fn signed(below: bool, num: u128, scale: u32) -> (r: F64)
    requires
        0 < num < 0x4000_0000_0000_0000_0000_0000_0000_0000,
        73 <= scale <= 1800,
    ensures
        ({
            let magnitude = from_units(num as nat * crate::float::two_to(scale as nat), 1);
            r == if below {
                magnitude.negated()
            } else {
                magnitude
            }
        }),
{
    let magnitude = rounded_quotient(num, 1, scale);
    if below {
        F64 { bits: magnitude.bits + SIGN_BIT }
    } else {
        magnitude
    }
}

/// `m` doubled so many times.
fn doubled(m: u64, times: u32) -> (r: u128)
    requires
        m < SIGNIFICAND_LIMIT,
        times <= 72,
    ensures
        r == m as nat * crate::float::two_to(times as nat),
        r < 0x2000_0000_0000_0000_0000_0000_0000_0000,
{
    let mut r: u128 = m as u128;
    let mut i: u32 = 0;
    assert(m * 1 == m);
    proof {
        lemma_powers();
    }
    while i < times
        invariant
            m < SIGNIFICAND_LIMIT,
            i <= times <= 72,
            r == m as nat * crate::float::two_to(i as nat),
            r < 0x2000_0000_0000_0000_0000_0000_0000_0000,
        decreases times - i,
    {
        proof {
            let t = crate::float::two_to(i as nat);
            lemma_powers();
            crate::float::lemma_two_to_monotone((i + 1) as nat, 72);
            crate::float::lemma_two_to_positive(i as nat);
            assert(m * (2 * t) == 2 * (m * t)) by (nonlinear_arith);
            assert(m * (2 * t) < 0x20_0000_0000_0000 * 0x100_0000_0000_0000_0000)
                by (nonlinear_arith)
                requires
                    m < 0x20_0000_0000_0000,
                    0 < 2 * t <= 0x100_0000_0000_0000_0000,
            ;
        }
        r = 2 * r;
        i = i + 1;
    }
    r
}

/// Some powers of two.
pub proof fn lemma_powers()
    ensures
        crate::float::two_to(12) == 0x1000,
        crate::float::two_to(19) == 0x8_0000,
        crate::float::two_to(20) == 0x10_0000,
        crate::float::two_to(52) == HIDDEN_BIT,
        crate::float::two_to(72) == 0x100_0000_0000_0000_0000,
        crate::float::two_to(73) == 0x200_0000_0000_0000_0000,
{
    assert(crate::float::two_to(26) == 0x400_0000) by {
        reveal_with_fuel(crate::float::two_to, 27);
    }
    assert(crate::float::two_to(12) == 0x1000 && crate::float::two_to(20) == 0x10_0000) by {
        reveal_with_fuel(crate::float::two_to, 21);
    }
    assert(crate::float::two_to(20) == 2 * crate::float::two_to(19));
    crate::float::lemma_two_to_adds(26, 26);
    crate::float::lemma_two_to_adds(52, 20);
    assert(crate::float::two_to(73) == 2 * crate::float::two_to(72));
}

/// A factor of a number below a power of two is a smaller power of two.
proof fn lemma_factor_bound(m: nat, k: nat, top: nat)
    requires
        m > 0,
        m * crate::float::two_to(k) < crate::float::two_to(top),
    ensures
        k < top,
{
    let t = crate::float::two_to(k);
    assert(t <= m * t) by (nonlinear_arith)
        requires
            m > 0,
            t >= 0,
    ;
    if k >= top {
        crate::float::lemma_two_to_monotone(top, k);
    }
}

/// The number of doublings is the one that makes a quotient fit a significand.
proof fn lemma_binade_range(num: nat, den: nat)
    requires
        den > 0,
    ensures
        num < SIGNIFICAND_LIMIT * (den * crate::float::two_to(binade(num, den))),
        binade(num, den) > 0 ==> num >= HIDDEN_BIT * (den * crate::float::two_to(
            binade(num, den),
        )),
    decreases
            if num >= SIGNIFICAND_LIMIT * den {
                num - SIGNIFICAND_LIMIT * den + 1
            } else {
                0
            },
{
    if num < SIGNIFICAND_LIMIT * den {
        assert(den * 1 == den);
    } else {
        lemma_binade_range(num, 2 * den);
        let t = crate::float::two_to(binade(num, 2 * den));
        assert(den * (2 * t) == (2 * den) * t) by (nonlinear_arith);
        if binade(num, 2 * den) == 0 {
            assert((2 * den) * 1 == 2 * den);
        }
    }
}

/// There is only one number of doublings that makes a quotient fit a normal significand.
proof fn lemma_binade_unique(num: nat, den: nat, e: nat)
    requires
        den > 0,
        num < SIGNIFICAND_LIMIT * (den * crate::float::two_to(e)),
        e > 0 ==> num >= HIDDEN_BIT * (den * crate::float::two_to(e)),
    ensures
        binade(num, den) == e,
    decreases e,
{
    if e == 0 {
        assert(den * 1 == den);
    } else {
        let t = crate::float::two_to((e - 1) as nat);
        crate::float::lemma_two_to_positive((e - 1) as nat);
        assert(den * (2 * t) == (2 * den) * t) by (nonlinear_arith);
        assert((2 * den) * t >= 2 * den) by (nonlinear_arith)
            requires
                t >= 1,
        ;
        lemma_binade_unique(num, 2 * den, (e - 1) as nat);
    }
}

/// A power of two in front of a quotient only moves the exponent.
pub proof fn lemma_common_scale(num: nat, den: nat, n: nat, d: nat, scale: nat, down: nat, up: nat)
    requires
        den > 0,
        down <= scale,
        n == num * crate::float::two_to(down),
        d == den * crate::float::two_to(up),
        HIDDEN_BIT * d <= n < SIGNIFICAND_LIMIT * d,
    ensures
        ({
            let whole = num * crate::float::two_to(scale);
            let e = (scale - down + up) as nat;
            &&& binade(whole, den) == e
            &&& crate::float::nearest(whole, den * crate::float::two_to(e))
                == crate::float::nearest(n, d)
        }),
{
    let whole = num * crate::float::two_to(scale);
    let e = (scale - down + up) as nat;
    let f = crate::float::two_to((scale - down) as nat);
    let t = crate::float::two_to(down);
    let u = crate::float::two_to(up);
    crate::float::lemma_two_to_adds(down, (scale - down) as nat);
    crate::float::lemma_two_to_adds(up, (scale - down) as nat);
    crate::float::lemma_two_to_positive((scale - down) as nat);
    crate::float::lemma_two_to_positive(up);
    assert(num * (t * f) == (num * t) * f) by (nonlinear_arith);
    assert(den * (u * f) == (den * u) * f) by (nonlinear_arith);
    assert(d > 0) by (nonlinear_arith)
        requires
            d == den * u,
            den > 0,
            u >= 1,
    ;
    assert(0x10_0000_0000_0000 * (d * f) <= n * f < 0x20_0000_0000_0000 * (d * f))
        by (nonlinear_arith)
        requires
            0x10_0000_0000_0000 * d <= n < 0x20_0000_0000_0000 * d,
            f >= 1,
    ;
    lemma_binade_unique(whole, den, e);
    crate::float::lemma_nearest_cancel(n, d, f);
}

/// What the bit pattern of a rounded number says of its magnitude.
pub proof fn lemma_from_units(num: nat, den: nat)
    requires
        den > 0,
        binade(num, den) <= 2000,
    ensures
        ({
            let r = from_units(num, den);
            let e = binade(num, den);
            let q = crate::float::nearest(num, den * crate::float::two_to(e));
            &&& r.is_finite()
            &&& !r.negative()
            &&& r.bits == e * HIDDEN_BIT + q
            &&& r.units() == q * crate::float::two_to(e)
            &&& q <= SIGNIFICAND_LIMIT
            &&& e > 0 ==> q >= HIDDEN_BIT && r.significand() >= HIDDEN_BIT && e <= r.scaling()
                <= e + 1
        }),
{
    let r = from_units(num, den);
    let e = binade(num, den);
    let t = crate::float::two_to(e);
    let d = den * t;
    let q = crate::float::nearest(num, d);
    lemma_binade_range(num, den);
    crate::float::lemma_two_to_positive(e);
    assert(d > 0) by (nonlinear_arith)
        requires
            d == den * t,
            den > 0,
            t >= 1,
    ;
    crate::float::lemma_nearest_monotone(num, (SIGNIFICAND_LIMIT * d) as nat, d);
    crate::float::lemma_nearest_exact(SIGNIFICAND_LIMIT as nat, d);
    if e > 0 {
        crate::float::lemma_nearest_monotone((HIDDEN_BIT * d) as nat, num, d);
        crate::float::lemma_nearest_exact(HIDDEN_BIT as nat, d);
    }
    if q == SIGNIFICAND_LIMIT {
        assert(r.bits == (e + 2) * HIDDEN_BIT);
        assert(r.exponent_field() == e + 2 && r.fraction_field() == 0);
        assert(crate::float::two_to(e + 1) == 2 * t);
        assert(0x10_0000_0000_0000 * (2 * t) == 0x20_0000_0000_0000 * t);
        assert(r.significand() == 0x10_0000_0000_0000);
        assert(r.units() == 0x10_0000_0000_0000 * (2 * t));
    } else if q >= HIDDEN_BIT {
        assert(r.bits == (e + 1) * HIDDEN_BIT + (q - HIDDEN_BIT));
        assert(r.exponent_field() == e + 1 && r.fraction_field() == q - HIDDEN_BIT);
    } else {
        assert(r.bits == q);
        assert(r.exponent_field() == 0 && r.fraction_field() == q);
    }
}

/// The exponent of a rounded number lies where the number does.
proof fn lemma_scaling_bounds(num: nat, den: nat, low: nat, high: nat)
    requires
        den > 0,
        0 < low <= high <= 1900,
        HIDDEN_BIT * (den * crate::float::two_to(low)) <= num,
        num < HIDDEN_BIT * (den * crate::float::two_to(high)),
    ensures
        from_units(num, den).is_scaled_within(low, high),
        from_units(num, den).significand() >= HIDDEN_BIT,
        !from_units(num, den).negative(),
{
    let e = binade(num, den);
    lemma_binade_range(num, den);
    if e < low {
        let t = crate::float::two_to(e);
        crate::float::lemma_two_to_monotone(e + 1, low);
        assert(den * (2 * t) <= den * crate::float::two_to(low)) by (nonlinear_arith)
            requires
                2 * t <= crate::float::two_to(low),
        ;
        assert(den * (2 * t) == 2 * (den * t)) by (nonlinear_arith);
    }
    if e >= high {
        crate::float::lemma_two_to_monotone(high, e);
        assert(den * crate::float::two_to(high) <= den * crate::float::two_to(e))
            by (nonlinear_arith)
            requires
                crate::float::two_to(high) <= crate::float::two_to(e),
        ;
    }
    lemma_from_units(num, den);
}

/// Zero is rounded to zero.
proof fn lemma_from_nothing(den: nat)
    requires
        den > 0,
    ensures
        from_units(0, den) == (F64 { bits: 0 }),
        (F64 { bits: 0 }).units() == 0,
{
    assert(den * 1 == den);
    assert(0 * den == 0);
    crate::float::lemma_nearest_exact(0, den);
    let zero = F64 { bits: 0 };
    assert(zero.significand() == 0);
    assert(0 * crate::float::two_to(zero.scaling()) == 0);
}

/// The clock starts at zero.
proof fn lemma_seconds_of_zero()
    ensures
        seconds_of(0) == (F64 { bits: 0 }),
{
    assert(0 * crate::float::two_to(1074) == 0);
    lemma_from_nothing(1);
    lemma_from_nothing(1_000_000);
}

/// The range of a count of microseconds.
proof fn lemma_count_range(microseconds: u64)
    requires
        microseconds > 0,
    ensures
        quotient(microseconds as nat, 1).is_scaled_within(1022, 1086),
        quotient(microseconds as nat, 1).significand() >= HIDDEN_BIT,
{
    let one = crate::float::two_to(1074);
    let num = microseconds as nat * one;
    lemma_powers();
    crate::float::lemma_two_to_positive(1074);
    crate::float::lemma_two_to_adds(52, 1022);
    crate::float::lemma_two_to_adds(12, 1074);
    assert(one <= num < 0x1_0000_0000_0000_0000 * one) by (nonlinear_arith)
        requires
            num == microseconds * one,
            0 < microseconds < 0x1_0000_0000_0000_0000,
            one > 0,
    ;
    lemma_scaling_bounds(num, 1, 1022, 1086);
}

/// The range of a reading of the clock, in seconds.
proof fn lemma_seconds_range(microseconds: u64)
    ensures
        seconds_of(microseconds).is_scaled_within(1002, 1068),
        !seconds_of(microseconds).negative(),
{
    if microseconds == 0 {
        lemma_seconds_of_zero();
    } else {
        let count = quotient(microseconds as nat, 1);
        let s = count.significand();
        let t = crate::float::two_to(count.scaling());
        let low = crate::float::two_to(1022);
        let high = crate::float::two_to(1086);
        lemma_count_range(microseconds);
        lemma_powers();
        crate::float::lemma_two_to_monotone(1022, count.scaling());
        crate::float::lemma_two_to_monotone(count.scaling(), 1086);
        crate::float::lemma_two_to_adds(20, 1002);
        crate::float::lemma_two_to_adds(19, 1068);
        crate::float::lemma_two_to_positive(1022);
        assert(crate::float::two_to(1087) == 2 * high);
        assert(0x10_0000_0000_0000 * low <= s * t < 0x20_0000_0000_0000 * high)
            by (nonlinear_arith)
            requires
                0x10_0000_0000_0000 <= s < 0x20_0000_0000_0000,
                0 < low <= t <= high,
        ;
        lemma_scaling_bounds(count.units(), 1_000_000, 1002, 1068);
    }
}

/// A change of sign changes nothing else.
pub proof fn lemma_negated(x: F64)
    ensures
        x.negated().negative() == !x.negative(),
        x.negated().exponent_field() == x.exponent_field(),
        x.negated().fraction_field() == x.fraction_field(),
        x.negated().value() == -x.value(),
{
    let h = HIDDEN_BIT as int;
    let y = x.negated();
    if x.negative() {
        assert(x.bits as int == y.bits + 2048 * h);
    } else {
        assert(y.bits as int == x.bits + 2048 * h);
    }
}

/// A number whose exponent is not below `low` is a multiple of that power of two.
pub proof fn lemma_aligned(a: F64, low: nat, x: nat)
    requires
        a.significand() == 0 ==> x == 0,
        a.significand() > 0 ==> a.scaling() >= low && x == a.significand()
            * crate::float::two_to((a.scaling() - low) as nat),
    ensures
        a.units() == x * crate::float::two_to(low),
{
    let t = crate::float::two_to(low);
    if a.significand() == 0 {
        assert(0 * crate::float::two_to(a.scaling()) == 0);
        assert(0 * t == 0);
    } else {
        let u = crate::float::two_to((a.scaling() - low) as nat);
        let s = a.significand();
        crate::float::lemma_two_to_adds((a.scaling() - low) as nat, low);
        assert(s * (u * t) == (s * u) * t) by (nonlinear_arith);
    }
}

/// Multiples of the same power of two are added by adding their factors.
pub proof fn lemma_aligned_sum(a: F64, b: F64, low: nat, x: nat, y: nat)
    requires
        a.units() == x * crate::float::two_to(low),
        b.units() == y * crate::float::two_to(low),
    ensures
        a.units() + b.units() == (x + y) * crate::float::two_to(low),
        a.units() - b.units() == (x - y) * crate::float::two_to(low),
        b.units() - a.units() == (y - x) * crate::float::two_to(low),
        x + y > 0 ==> a.units() + b.units() >= crate::float::two_to(low),
        x + y == 0 ==> a.units() + b.units() == 0,
        x > y ==> a.units() - b.units() >= crate::float::two_to(low),
        x == y ==> a.units() == b.units(),
        x < y ==> b.units() - a.units() >= crate::float::two_to(low),
        crate::float::two_to(low) > 0,
{
    let t = crate::float::two_to(low) as int;
    crate::float::lemma_two_to_positive(low);
    assert((x + y) * t == x * t + y * t) by (nonlinear_arith);
    assert((x - y) * t == x * t - y * t) by (nonlinear_arith);
    assert((y - x) * t == y * t - x * t) by (nonlinear_arith);
    assert(x + y > 0 ==> (x + y) * t >= t) by (nonlinear_arith)
        requires
            t > 0,
    ;
    assert(x > y ==> (x - y) * t >= t) by (nonlinear_arith)
        requires
            t > 0,
    ;
    assert(x < y ==> (y - x) * t >= t) by (nonlinear_arith)
        requires
            t > 0,
    ;
}

/// The magnitude of a number is bounded by its exponent.
proof fn lemma_units_bound(a: F64, low: nat, high: nat)
    requires
        a.is_scaled_within(low, high),
    ensures
        a.units() < SIGNIFICAND_LIMIT * crate::float::two_to(high),
        exists|x: nat| a.units() == #[trigger] (x * crate::float::two_to(low)),
{
    let s = a.significand();
    let t = crate::float::two_to(a.scaling());
    crate::float::lemma_two_to_positive(high);
    let x = if s == 0 {
        0
    } else {
        s * crate::float::two_to((a.scaling() - low) as nat)
    };
    lemma_aligned(a, low, x);
    if s == 0 {
        assert(0 * t == 0);
    } else {
        crate::float::lemma_two_to_monotone(a.scaling(), high);
        crate::float::lemma_two_to_positive(a.scaling());
        let u = crate::float::two_to(high);
        assert(s * t < 0x20_0000_0000_0000 * u) by (nonlinear_arith)
            requires
                0 < s < 0x20_0000_0000_0000,
                0 < t <= u,
        ;
    }
}

/// The range of a sum.
proof fn lemma_sum_range(a: F64, b: F64, low: nat, high: nat)
    requires
        0 < low <= high <= 1800,
        a.is_scaled_within(low + 52, high),
        b.is_scaled_within(low + 52, high),
    ensures
        sum_of(a, b).is_scaled_within(low, high + 2),
{
    lemma_units_bound(a, low + 52, high);
    lemma_units_bound(b, low + 52, high);
    let t = crate::float::two_to(low + 52);
    let x = choose|x: nat| a.units() == #[trigger] (x * t);
    let y = choose|y: nat| b.units() == #[trigger] (y * t);
    lemma_aligned_sum(a, b, low + 52, x, y);
    lemma_powers();
    crate::float::lemma_two_to_adds(52, low);
    crate::float::lemma_two_to_adds(2, high);
    assert(crate::float::two_to(2) == 4) by {
        reveal_with_fuel(crate::float::two_to, 3);
    }
    let v = a.value() + b.value();
    if v > 0 {
        lemma_scaling_bounds(v as nat, 1, low, high + 2);
    } else if v < 0 {
        lemma_scaling_bounds((-v) as nat, 1, low, high + 2);
        lemma_negated(from_units((-v) as nat, 1));
    }
}

/// The bit pattern of one.
pub proof fn lemma_quotient_one()
    ensures
        quotient(1, 1) == (F64 { bits: 0x3ff0_0000_0000_0000 }),
        quotient(1, 1).is_scaled_within(1022, 1022),
        quotient(1, 1).value() == crate::float::two_to(1074),
{
    let t = crate::float::two_to(1022);
    lemma_powers();
    crate::float::lemma_two_to_adds(52, 1022);
    crate::float::lemma_two_to_positive(1022);
    lemma_binade_unique(crate::float::two_to(1074), 1, 1022);
    crate::float::lemma_nearest_exact(HIDDEN_BIT as nat, t);
}

/// The bit pattern of a half.
pub proof fn lemma_quotient_half()
    ensures
        quotient(1, 2) == (F64 { bits: 0x3fe0_0000_0000_0000 }),
        quotient(1, 2).is_finite(),
        2 * quotient(1, 2).value() == crate::float::two_to(1074),
{
    let t = crate::float::two_to(1022);
    lemma_powers();
    crate::float::lemma_two_to_adds(52, 1022);
    crate::float::lemma_two_to_positive(1022);
    assert(2 * crate::float::two_to(1021) == t);
    lemma_binade_unique(crate::float::two_to(1074), 2, 1021);
    crate::float::lemma_nearest_exact(HIDDEN_BIT as nat, t);
    let half = quotient(1, 2);
    assert(half.scaling() == 1021 && half.significand() == 0x10_0000_0000_0000);
    assert(half.units() == 0x10_0000_0000_0000 * crate::float::two_to(1021));
}

/// A zero has no other bits than its sign.
proof fn lemma_zero(a: F64)
    requires
        a.is_finite(),
    ensures
        a.units() == 0 <==> a.bits % SIGN_BIT == 0,
{
    let s = a.significand();
    let t = crate::float::two_to(a.scaling());
    crate::float::lemma_two_to_positive(a.scaling());
    assert(s * t == 0 <==> s == 0) by (nonlinear_arith)
        requires
            t >= 1,
            s >= 0,
    ;
}

/// Magnitudes are ordered as their bit patterns.
proof fn lemma_order_of_magnitudes(a: F64, b: F64)
    requires
        a.is_finite(),
        b.is_finite(),
    ensures
        a.bits % SIGN_BIT < b.bits % SIGN_BIT ==> a.units() < b.units(),
        a.bits % SIGN_BIT == b.bits % SIGN_BIT ==> a.units() == b.units(),
{
    let x = a.significand();
    let y = b.significand();
    let t = crate::float::two_to(a.scaling());
    let u = crate::float::two_to(b.scaling());
    crate::float::lemma_two_to_positive(a.scaling());
    assert(a.bits % SIGN_BIT == a.exponent_field() * HIDDEN_BIT + a.fraction_field());
    assert(b.bits % SIGN_BIT == b.exponent_field() * HIDDEN_BIT + b.fraction_field());
    if a.bits % SIGN_BIT < b.bits % SIGN_BIT {
        if a.scaling() == b.scaling() {
            assert(x * t < y * t) by (nonlinear_arith)
                requires
                    x < y,
                    t >= 1,
            ;
        } else {
            crate::float::lemma_two_to_monotone(a.scaling() + 1, b.scaling());
            assert(x * t < y * u) by (nonlinear_arith)
                requires
                    x < 0x20_0000_0000_0000,
                    y >= 0x10_0000_0000_0000,
                    t >= 1,
                    u >= 2 * t,
            ;
        }
    }
}

/// Rounding keeps the order.
proof fn lemma_from_units_monotone(a: nat, b: nat, den: nat)
    requires
        den > 0,
        a <= b,
    ensures
        from_units(a, den).bits <= from_units(b, den).bits <= INFINITY,
{
    let ea = binade(a, den);
    let eb = binade(b, den);
    let da = den * crate::float::two_to(ea);
    let db = den * crate::float::two_to(eb);
    lemma_binade_range(a, den);
    lemma_binade_range(b, den);
    lemma_binade_monotone(a, b, den);
    lemma_positive_product(den, ea);
    lemma_positive_product(den, eb);
    if ea == eb {
        crate::float::lemma_nearest_monotone(a, b, da);
    } else {
        crate::float::lemma_nearest_monotone(a, (SIGNIFICAND_LIMIT * da) as nat, da);
        crate::float::lemma_nearest_exact(SIGNIFICAND_LIMIT as nat, da);
        crate::float::lemma_nearest_monotone((HIDDEN_BIT * db) as nat, b, db);
        crate::float::lemma_nearest_exact(HIDDEN_BIT as nat, db);
    }
}

/// A denominator stays positive when it is doubled.
proof fn lemma_positive_product(den: nat, e: nat)
    requires
        den > 0,
    ensures
        den * crate::float::two_to(e) > 0,
{
    let t = crate::float::two_to(e);
    crate::float::lemma_two_to_positive(e);
    assert(den * t > 0) by (nonlinear_arith)
        requires
            den > 0,
            t >= 1,
    ;
}

/// A greater numerator needs no fewer doublings of the denominator.
proof fn lemma_binade_monotone(a: nat, b: nat, den: nat)
    requires
        den > 0,
        a <= b,
    ensures
        binade(a, den) <= binade(b, den),
    decreases
            if a >= SIGNIFICAND_LIMIT * den {
                a - SIGNIFICAND_LIMIT * den + 1
            } else {
                0
            },
{
    if a >= SIGNIFICAND_LIMIT * den {
        lemma_binade_monotone(a, b, 2 * den);
    }
}

/// A finite number needs no rounding.
proof fn lemma_round_trip(x: F64)
    requires
        x.is_finite(),
    ensures
        from_units(x.units(), 1).bits == x.bits % SIGN_BIT,
{
    let s = x.significand();
    let e = x.scaling();
    let t = crate::float::two_to(e);
    crate::float::lemma_two_to_positive(e);
    assert(1 * t == t);
    assert(x.bits % SIGN_BIT == x.exponent_field() * HIDDEN_BIT + x.fraction_field());
    assert(s * t < 0x20_0000_0000_0000 * t) by (nonlinear_arith)
        requires
            s < 0x20_0000_0000_0000,
            t >= 1,
    ;
    if e > 0 {
        assert(s * t >= 0x10_0000_0000_0000 * t) by (nonlinear_arith)
            requires
                s >= 0x10_0000_0000_0000,
        ;
    }
    lemma_binade_unique(x.units(), 1, e);
    crate::float::lemma_nearest_exact(s, t);
}

/// What is not negative is not rounded to anything negative, and keeps its order.
proof fn lemma_rounded_order(a: nat, b: nat, den: nat)
    requires
        den > 0,
        a <= b,
        from_units(a, den).is_finite(),
        from_units(b, den).is_finite(),
    ensures
        from_units(a, den).value() == from_units(a, den).units(),
        from_units(a, den).units() <= from_units(b, den).units(),
{
    let x = from_units(a, den);
    let y = from_units(b, den);
    lemma_from_units_monotone(a, b, den);
    assert(x.bits % SIGN_BIT == x.bits && y.bits % SIGN_BIT == y.bits);
    lemma_order_of_magnitudes(x, y);
}

/// The value of a sum.
proof fn lemma_sum_value(a: F64, b: F64)
    requires
        sum_of(a, b).is_finite(),
    ensures
        ({
            let v = a.value() + b.value();
            let magnitude = from_units(vstd::math::abs(v) as nat, 1);
            &&& magnitude.is_finite()
            &&& sum_of(a, b).value() == if v >= 0 {
                magnitude.units() as int
            } else {
                -(magnitude.units() as int)
            }
        }),
{
    let v = a.value() + b.value();
    let magnitude = from_units(vstd::math::abs(v) as nat, 1);
    if v == 0 {
        lemma_from_nothing(1);
        lemma_zero(sum_of(a, b));
    } else {
        lemma_negated(magnitude);
        lemma_rounded_order(vstd::math::abs(v) as nat, vstd::math::abs(v) as nat, 1);
    }
}

/// A greater sum is not rounded to a smaller number.
proof fn lemma_sum_keeps_order(a: F64, b: F64, c: F64, d: F64)
    requires
        a.value() + b.value() <= c.value() + d.value(),
        sum_of(a, b).is_finite(),
        sum_of(c, d).is_finite(),
    ensures
        sum_of(a, b).value() <= sum_of(c, d).value(),
{
    let v = a.value() + b.value();
    let w = c.value() + d.value();
    lemma_sum_value(a, b);
    lemma_sum_value(c, d);
    if v >= 0 {
        lemma_rounded_order(v as nat, w as nat, 1);
    } else if w < 0 {
        lemma_rounded_order((-w) as nat, (-v) as nat, 1);
    }
}

/// A later reading of the clock does not give fewer seconds.
proof fn lemma_seconds_keep_order(to: u64, later: u64)
    requires
        to <= later,
    ensures
        seconds_of(to).value() <= seconds_of(later).value(),
{
    let one = crate::float::two_to(1074);
    lemma_seconds_range(to);
    lemma_seconds_range(later);
    if to == 0 {
        lemma_seconds_of_zero();
        lemma_zero(seconds_of(0));
    } else {
        assert(to * one <= later * one) by (nonlinear_arith)
            requires
                to <= later,
        ;
        lemma_count_range(to);
        lemma_count_range(later);
        lemma_rounded_order(to as nat * one, later as nat * one, 1);
        lemma_rounded_order(
            quotient(to as nat, 1).units(),
            quotient(later as nat, 1).units(),
            1_000_000,
        );
    }
}

/// A later reading of the clock never gives an earlier time.
pub proof fn law_clock_never_runs_back(from: u64, to: u64, later: u64)
    requires
        to <= later,
    ensures
        !time_between(from, to).exceeds(time_between(from, later)),
        time_between(from, later).is_time(),
{
    let minus = seconds_of(from).negated();
    lemma_seconds_range(to);
    lemma_seconds_range(later);
    lemma_seconds_range(from);
    lemma_negated(seconds_of(from));
    lemma_sum_range(seconds_of(to), minus, 950, 1068);
    lemma_sum_range(seconds_of(later), minus, 950, 1068);
    lemma_seconds_keep_order(to, later);
    lemma_sum_keeps_order(seconds_of(to), minus, seconds_of(later), minus);
}

/// Numbers that are not negative are ordered as their bit patterns.
pub proof fn law_order_of_bit_patterns(a: F64, b: F64)
    requires
        !a.negative() && !a.is_nan(),
        !b.negative() && !b.is_nan(),
    ensures
        a.exceeds(b) <==> a.bits > b.bits,
{
    assert(a.bits % SIGN_BIT == a.bits && b.bits % SIGN_BIT == b.bits);
    if a.is_finite() && b.is_finite() {
        lemma_order_of_magnitudes(a, b);
        lemma_order_of_magnitudes(b, a);
    }
}

/// What one number exceeds, a number that it does not exceed exceeds too.
pub proof fn law_exceeding_is_kept(a: F64, b: F64, c: F64)
    requires
        a.exceeds(c),
        !a.exceeds(b),
        !b.is_nan(),
    ensures
        b.exceeds(c),
{
}

/// No time has passed between a reading of the clock and itself.
pub proof fn law_no_time_between_equal_readings(reading: u64)
    ensures
        time_between(reading, reading) == (F64 { bits: 0 }),
{
    lemma_seconds_range(reading);
    lemma_negated(seconds_of(reading));
}

/// A time does not exceed the moment one second after it.
pub proof fn law_a_second_later_is_not_before(t: F64)
    requires
        t.is_time(),
    ensures
        !t.exceeds(sum_of(t, quotient(1, 1))),
        sum_of(t, quotient(1, 1)).is_finite(),
{
    let one = quotient(1, 1);
    let zero = F64 { bits: 0 };
    lemma_quotient_one();
    lemma_from_nothing(1);
    lemma_sum_range(t, one, 898, 1070);
    lemma_sum_range(t, zero, 898, 1070);
    lemma_round_trip(t);
    lemma_order_of_magnitudes(from_units(t.units(), 1), t);
    lemma_sum_value(t, zero);
    lemma_sum_keeps_order(t, zero, t, one);
}

/// Rounding moves a number by no more than one part in two to the fifty-three.
proof fn lemma_relative_error(num: nat, den: nat)
    requires
        den > 0,
        0 < binade(num, den) <= 2000,
    ensures
        ({
            let error = from_units(num, den).units() * den - num;
            -(num as int) <= error * 0x20_0000_0000_0000 <= num
        }),
{
    let e = binade(num, den);
    let t = crate::float::two_to(e);
    let d = den * t;
    let q = crate::float::nearest(num, d);
    lemma_binade_range(num, den);
    lemma_positive_product(den, e);
    lemma_from_units(num, den);
    crate::float::lemma_nearest_bounds(num, d);
    assert((q * t) * den == q * (den * t)) by (nonlinear_arith);
}

/// A reading of the clock in seconds is off by no more than three parts in two to the
/// fifty-three.
proof fn lemma_seconds_are_accurate(microseconds: u64)
    ensures
        ({
            let exact = microseconds * crate::float::two_to(1074);
            let error = seconds_of(microseconds).value() * 1_000_000 - exact;
            -3 * exact <= error * 0x20_0000_0000_0000 <= 3 * exact
        }),
{
    let one = crate::float::two_to(1074);
    let exact = microseconds as nat * one;
    if microseconds == 0 {
        lemma_seconds_of_zero();
        lemma_zero(seconds_of(0));
        assert(0 * one == 0);
    } else {
        let count = quotient(microseconds as nat, 1);
        lemma_count_range(microseconds);
        lemma_seconds_range(microseconds);
        lemma_count_is_large(microseconds);
        lemma_positive_binade(exact, 1, 1022, 1086);
        lemma_relative_error(exact, 1);
        lemma_positive_binade(count.units(), 1_000_000, 1002, 1068);
        lemma_relative_error(count.units(), 1_000_000);
    }
}

/// A count of microseconds is far from the smallest numbers.
proof fn lemma_count_is_large(microseconds: u64)
    requires
        microseconds > 0,
    ensures
        ({
            let one = crate::float::two_to(1074);
            let count = quotient(microseconds as nat, 1);
            &&& HIDDEN_BIT * (1 * crate::float::two_to(1022)) <= microseconds * one
            &&& microseconds * one < HIDDEN_BIT * (1 * crate::float::two_to(1086))
            &&& HIDDEN_BIT * (1_000_000 * crate::float::two_to(1002)) <= count.units()
            &&& count.units() < HIDDEN_BIT * (1_000_000 * crate::float::two_to(1068))
        }),
{
    let one = crate::float::two_to(1074);
    let num = microseconds as nat * one;
    let count = quotient(microseconds as nat, 1);
    let s = count.significand();
    let t = crate::float::two_to(count.scaling());
    let low = crate::float::two_to(1022);
    let high = crate::float::two_to(1086);
    lemma_powers();
    crate::float::lemma_two_to_positive(1074);
    crate::float::lemma_two_to_adds(52, 1022);
    crate::float::lemma_two_to_adds(12, 1074);
    assert(one <= num < 0x1_0000_0000_0000_0000 * one) by (nonlinear_arith)
        requires
            num == microseconds * one,
            0 < microseconds < 0x1_0000_0000_0000_0000,
            one > 0,
    ;
    lemma_count_range(microseconds);
    crate::float::lemma_two_to_monotone(1022, count.scaling());
    crate::float::lemma_two_to_monotone(count.scaling(), 1086);
    crate::float::lemma_two_to_adds(20, 1002);
    crate::float::lemma_two_to_adds(19, 1068);
    crate::float::lemma_two_to_positive(1022);
    assert(crate::float::two_to(1087) == 2 * high);
    assert(0x10_0000_0000_0000 * low <= s * t < 0x20_0000_0000_0000 * high) by (nonlinear_arith)
        requires
            0x10_0000_0000_0000 <= s < 0x20_0000_0000_0000,
            0 < low <= t <= high,
    ;
}

/// A number that is large enough has a positive exponent.
proof fn lemma_positive_binade(num: nat, den: nat, low: nat, high: nat)
    requires
        den > 0,
        0 < low <= high <= 1900,
        HIDDEN_BIT * (den * crate::float::two_to(low)) <= num,
        num < HIDDEN_BIT * (den * crate::float::two_to(high)),
    ensures
        0 < binade(num, den) <= 2000,
{
    let e = binade(num, den);
    lemma_binade_range(num, den);
    if e < low {
        let t = crate::float::two_to(e);
        crate::float::lemma_two_to_monotone(e + 1, low);
        assert(den * (2 * t) <= den * crate::float::two_to(low)) by (nonlinear_arith)
            requires
                2 * t <= crate::float::two_to(low),
        ;
        assert(den * (2 * t) == 2 * (den * t)) by (nonlinear_arith);
    }
    if e >= high {
        crate::float::lemma_two_to_monotone(high, e);
        assert(den * crate::float::two_to(high) <= den * crate::float::two_to(e))
            by (nonlinear_arith)
            requires
                crate::float::two_to(high) <= crate::float::two_to(e),
        ;
    }
}

/// The time between two readings of the clock is their difference in microseconds, divided
/// by a million, up to five parts in two to the fifty-three of the readings.
pub proof fn law_time_is_accurate(from: u64, to: u64)
    ensures
        ({
            let one = crate::float::two_to(1074);
            let error = time_between(from, to).value() * 1_000_000 - (to - from) * one;
            -5 * (from + to) * one <= error * 0x20_0000_0000_0000 <= 5 * (from + to) * one
        }),
{
    let one = crate::float::two_to(1074);
    let a = seconds_of(to);
    let minus = seconds_of(from).negated();
    let v = a.value() + minus.value();
    lemma_seconds_are_accurate(from);
    lemma_seconds_are_accurate(to);
    lemma_seconds_range(from);
    lemma_seconds_range(to);
    lemma_negated(seconds_of(from));
    lemma_sum_range(a, minus, 950, 1068);
    lemma_sum_value(a, minus);
    lemma_rounded_sum(a, minus);
    assert((to - from) * one == to * one - from * one) by (nonlinear_arith);
    assert(5 * (from + to) * one == 5 * (from * one) + 5 * (to * one)) by (nonlinear_arith);
    assert(-5 * (from + to) * one == -5 * (from * one) - 5 * (to * one)) by (nonlinear_arith);
    assert(from * one >= 0 && to * one >= 0) by (nonlinear_arith);
    lemma_order_of_seconds(from);
    lemma_order_of_seconds(to);
}

/// Seconds are not negative.
proof fn lemma_order_of_seconds(microseconds: u64)
    ensures
        seconds_of(microseconds).value() >= 0,
{
    lemma_seconds_range(microseconds);
}

/// A sum is off by no more than one part in two to the fifty-three.
proof fn lemma_rounded_sum(a: F64, b: F64)
    requires
        a.is_scaled_within(1002, 1068),
        b.is_scaled_within(1002, 1068),
    ensures
        ({
            let v = a.value() + b.value();
            let error = sum_of(a, b).value() - v;
            -vstd::math::abs(v) <= error * 0x20_0000_0000_0000 <= vstd::math::abs(v)
        }),
{
    let v = a.value() + b.value();
    let m = vstd::math::abs(v) as nat;
    lemma_sum_range(a, b, 950, 1068);
    lemma_sum_value(a, b);
    if v == 0 {
        lemma_from_nothing(1);
    } else {
        lemma_units_bound(a, 1002, 1068);
        lemma_units_bound(b, 1002, 1068);
        let t = crate::float::two_to(1002);
        let x = choose|x: nat| a.units() == #[trigger] (x * t);
        let y = choose|y: nat| b.units() == #[trigger] (y * t);
        lemma_aligned_sum(a, b, 1002, x, y);
        lemma_powers();
        crate::float::lemma_two_to_adds(52, 950);
        crate::float::lemma_two_to_adds(2, 1068);
        assert(crate::float::two_to(2) == 4) by {
            reveal_with_fuel(crate::float::two_to, 3);
        }
        assert(1 * crate::float::two_to(950) == crate::float::two_to(950));
        assert(1 * crate::float::two_to(1070) == crate::float::two_to(1070));
        lemma_positive_binade(m, 1, 950, 1070);
        lemma_relative_error(m, 1);
    }
}

/// Comparison is that of values, and no number is greater than itself or than what is
/// greater than it; what is no number is neither greater nor smaller than anything.
pub proof fn law_comparison(a: F64, b: F64)
    ensures
        a.is_finite() && b.is_finite() ==> (a.exceeds(b) <==> a.value() > b.value()),
        !a.exceeds(a),
        !(a.exceeds(b) && b.exceeds(a)),
        a.is_nan() ==> !a.exceeds(b) && !b.exceeds(a),
        a.is_infinite() && b.is_finite() ==> (a.exceeds(b) <==> !a.negative()) && (b.exceeds(a)
            <==> a.negative()),
{
}

} // verus!
