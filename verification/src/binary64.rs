//! IEEE 754 binary64 numbers, held by their 64-bit encoding.
//!
//! Frequencies, breakpoints and fitted coefficients are binary64 numbers. What this crate
//! decides about them (which of two is the smaller, whether one is a number at all, whether
//! it is negative) follows from their encodings alone. A number is therefore held as the 64
//! bits of its encoding, and each decision is proved against the exact value that the
//! encoding stands for.
//!
//! An encoding has a sign bit, eleven exponent bits and fifty-two fraction bits. With biased
//! exponent `e` and fraction `f` it stands for
//!
//! * `f * 2^-1074` where `e == 0` (zero and the subnormal numbers),
//! * `(2^52 + f) * 2^(e - 1075)` where `0 < e < 2047` (the normal numbers),
//! * an infinity where `e == 2047` and `f == 0`,
//! * a NaN where `e == 2047` and `f != 0`,
//!
//! negated where the sign bit is set. Every finite value is a whole multiple of `2^-1074`:
//! the model below first counts in that unit, in integers, and then divides by it.

use vstd::arithmetic::power2::*;
use vstd::prelude::*;

verus! {

/// Encoding of the sign bit.
pub const SIGN_BIT: u64 = 0x8000_0000_0000_0000;

/// Encoding of positive infinity: every exponent bit set, no fraction bit set.
pub const INFINITY_BITS: u64 = 0x7ff0_0000_0000_0000;

/// Value of the lowest exponent bit; the fraction lies below it.
pub const FRACTION_RANGE: u64 = 0x0010_0000_0000_0000;

/// Encoding of `1.0`.
pub const ONE_BITS: u64 = 0x3ff0_0000_0000_0000;

/// Encoding of `-1.0`.
pub const NEGATIVE_ONE_BITS: u64 = 0xbff0_0000_0000_0000;

/// What an encoding stands for.
pub enum Number {
    /// Not a number.
    NaN,
    /// An infinity.
    Infinite { negative: bool },
    /// A finite value.
    Finite { value: real },
}

/// How many units of `2^-1074` make `1.0`.
pub open spec fn unit() -> int {
    pow2(1074) as int
}

/// `a < b` as IEEE 754 orders them: a NaN is below nothing and above nothing.
pub open spec fn number_lt(a: Number, b: Number) -> bool {
    match (a, b) {
        (Number::NaN, _) => false,
        (_, Number::NaN) => false,
        (Number::Infinite { negative: na }, Number::Infinite { negative: nb }) => na && !nb,
        (Number::Infinite { negative }, Number::Finite { .. }) => negative,
        (Number::Finite { .. }, Number::Infinite { negative }) => !negative,
        (Number::Finite { value: x }, Number::Finite { value: y }) => x < y,
    }
}

/// `a == b` as IEEE 754 compares them: a NaN equals nothing, itself included, and the two
/// zeros are equal.
pub open spec fn number_eq(a: Number, b: Number) -> bool {
    a != Number::NaN && a == b
}

/// `a <= b` as IEEE 754 orders them.
pub open spec fn number_le(a: Number, b: Number) -> bool {
    number_lt(a, b) || number_eq(a, b)
}

/// The absolute value; that of a NaN is a NaN.
pub open spec fn number_abs(a: Number) -> Number {
    match a {
        Number::NaN => Number::NaN,
        Number::Infinite { .. } => Number::Infinite { negative: false },
        Number::Finite { value } => Number::Finite {
            value: if value < 0real {
                -value
            } else {
                value
            },
        },
    }
}

/// Half of `count`, rounded to a whole number; of the two whole numbers next to a half, the
/// even one.
pub open spec fn half_to_even(count: int) -> int {
    if count % 2 == 0 || (count / 2) % 2 == 0 {
        count / 2
    } else {
        count / 2 + 1
    }
}

/// Half of a binary64 number, as binary64 division by two gives it. A finite number is a
/// whole count of units of `2^-1074`, and its half is half that count, rounded to even where
/// the count is odd. Only a number below `2^-1021` in magnitude can have an odd count.
pub open spec fn number_half(a: Number) -> Number {
    match a {
        Number::NaN => Number::NaN,
        Number::Infinite { .. } => a,
        Number::Finite { value } => Number::Finite {
            value: half_to_even((value * unit() as real).floor()) as real / unit() as real,
        },
    }
}

/// A binary64 number, held by its encoding.
#[derive(Clone, Copy, Debug)]
pub struct Binary64 {
    pub bits: u64,
}

impl View for Binary64 {
    type V = Number;

    open spec fn view(&self) -> Number {
        if self.magnitude_bits() > INFINITY_BITS {
            Number::NaN
        } else if self.magnitude_bits() == INFINITY_BITS {
            Number::Infinite { negative: self.sign_bit_set() }
        } else {
            Number::Finite { value: self.value() }
        }
    }
}

impl Binary64 {
    /// The encoding with the sign bit cleared.
    pub open spec fn magnitude_bits(self) -> int {
        if self.bits >= SIGN_BIT {
            self.bits - SIGN_BIT
        } else {
            self.bits as int
        }
    }

    /// Whether the sign bit is set.
    pub open spec fn sign_bit_set(self) -> bool {
        self.bits >= SIGN_BIT
    }

    /// The biased exponent: the eleven bits below the sign bit.
    pub open spec fn biased_exponent(self) -> int {
        self.magnitude_bits() / (FRACTION_RANGE as int)
    }

    /// The fraction: the low fifty-two bits.
    pub open spec fn fraction(self) -> int {
        self.magnitude_bits() % (FRACTION_RANGE as int)
    }

    /// The significand, with the leading bit that a normal number implies.
    pub open spec fn significand(self) -> int {
        if self.biased_exponent() == 0 {
            self.fraction()
        } else {
            FRACTION_RANGE + self.fraction()
        }
    }

    /// The power of two by which the significand is multiplied, in units of `2^-1074`.
    pub open spec fn scale(self) -> nat {
        if self.biased_exponent() == 0 {
            0
        } else {
            (self.biased_exponent() - 1) as nat
        }
    }

    /// The absolute value in units of `2^-1074`. For an infinity this is `2^2098`, which
    /// is above every finite value.
    pub open spec fn scaled_magnitude(self) -> int {
        self.significand() * pow2(self.scale())
    }

    /// The signed value in units of `2^-1074`, with the infinities at `2^2098` and
    /// `-2^2098`.
    pub open spec fn position(self) -> int {
        if self.sign_bit_set() {
            -self.scaled_magnitude()
        } else {
            self.scaled_magnitude()
        }
    }

    /// The value that a finite encoding stands for.
    pub open spec fn value(self) -> real {
        self.position() as real / unit() as real
    }

    /// The number with the given encoding.
    pub fn from_bits(bits: u64) -> (r: Binary64)
        ensures
            r.bits == bits,
    {
        Binary64 { bits }
    }

    /// The encoding.
    pub fn to_bits(self) -> (bits: u64)
        ensures
            bits == self.bits,
    {
        self.bits
    }

    /// The encoding with the sign bit cleared.
    fn magnitude(self) -> (m: u64)
        ensures
            m == self.magnitude_bits(),
            m < SIGN_BIT,
    {
        if self.bits >= SIGN_BIT {
            self.bits - SIGN_BIT
        } else {
            self.bits
        }
    }

    /// Whether this is a NaN.
    pub fn is_nan(self) -> (r: bool)
        ensures
            r == (self@ == Number::NaN),
    {
        self.magnitude() > INFINITY_BITS
    }

    /// Whether this is one of the two infinities.
    pub fn is_infinite(self) -> (r: bool)
        ensures
            r == (self@ is Infinite),
    {
        self.magnitude() == INFINITY_BITS
    }

    /// Whether this is neither an infinity nor a NaN.
    pub fn is_finite(self) -> (r: bool)
        ensures
            r == (self@ is Finite),
    {
        self.magnitude() < INFINITY_BITS
    }

    /// Whether this is one of the two zeros.
    pub fn is_zero(self) -> (r: bool)
        ensures
            r == (self@ == (Number::Finite { value: 0real })),
    {
        proof {
            lemma_zero_magnitude(self);
            lemma_value_follows_position(self, Binary64 { bits: 0 });
        }
        self.magnitude() == 0
    }

    /// The absolute value: the same encoding with the sign bit cleared.
    pub fn abs(self) -> (r: Binary64)
        ensures
            r@ == number_abs(self@),
            !r.sign_bit_set(),
            r.magnitude_bits() == self.magnitude_bits(),
    {
        let r = Binary64 { bits: self.magnitude() };
        proof {
            lemma_scaled_magnitude_bounds(self);
            assert(r.magnitude_bits() == self.magnitude_bits());
            assert(r.scaled_magnitude() == self.scaled_magnitude());
            lemma_value_follows_position(self, r);
        }
        r
    }

    /// Half of this number, as binary64 division by two gives it. The sign is kept; so is a
    /// NaN, whatever it holds.
    pub fn halve(self) -> (r: Binary64)
        ensures
            r@ == number_half(self@),
            r.sign_bit_set() == self.sign_bit_set(),
            self@ is NaN ==> r == self,
    {
        let m: u64 = self.magnitude();
        if m >= INFINITY_BITS {
            proof {
                lemma_scaled_magnitude_bounds(self);
            }
            self
        } else if m >= 2 * FRACTION_RANGE {
            // One less in the exponent.
            let r = Binary64 { bits: self.bits - FRACTION_RANGE };
            proof {
                lemma_halve_normal(self, r);
            }
            r
        } else {
            // The result is subnormal, or the least normal number: the significand loses
            // its last bit.
            let half: u64 = m / 2;
            let rounded: u64 = if m % 2 == 1 && half % 2 == 1 {
                half + 1
            } else {
                half
            };
            let r = Binary64 { bits: self.bits - m + rounded };
            proof {
                lemma_halve_small(self, r);
            }
            r
        }
    }

    /// `self < other`. False where either is a NaN.
    pub fn lt(self, other: Binary64) -> (r: bool)
        ensures
            r == number_lt(self@, other@),
    {
        if self.is_nan() || other.is_nan() {
            return false;
        }
        let a: u64 = self.magnitude();
        let b: u64 = other.magnitude();
        proof {
            lemma_position_orders_numbers(self, other);
            lemma_magnitude_orders_values(self, other);
            lemma_magnitude_orders_values(other, self);
            lemma_zero_magnitude(self);
            lemma_zero_magnitude(other);
        }
        if self.bits >= SIGN_BIT {
            if other.bits >= SIGN_BIT {
                b < a
            } else {
                a != 0 || b != 0
            }
        } else {
            if other.bits >= SIGN_BIT {
                false
            } else {
                a < b
            }
        }
    }

    /// `self <= other`. False where either is a NaN.
    pub fn le(self, other: Binary64) -> (r: bool)
        ensures
            r == number_le(self@, other@),
    {
        if self.is_nan() || other.is_nan() {
            return false;
        }
        let a: u64 = self.magnitude();
        let b: u64 = other.magnitude();
        proof {
            lemma_position_orders_numbers(self, other);
            lemma_magnitude_orders_values(self, other);
            lemma_magnitude_orders_values(other, self);
            lemma_zero_magnitude(self);
            lemma_zero_magnitude(other);
        }
        if self.bits >= SIGN_BIT {
            if other.bits >= SIGN_BIT {
                b <= a
            } else {
                true
            }
        } else {
            if other.bits >= SIGN_BIT {
                a == 0 && b == 0
            } else {
                a <= b
            }
        }
    }
}

/// The scaled magnitude is never negative.
pub proof fn lemma_scaled_magnitude_bounds(x: Binary64)
    ensures
        0 <= x.scaled_magnitude(),
        0 <= x.fraction() < FRACTION_RANGE,
        0 <= x.biased_exponent() < 2048,
        x.magnitude_bits() == x.biased_exponent() * FRACTION_RANGE + x.fraction(),
{
    lemma_pow2_pos(x.scale());
    let s = x.significand();
    let p = pow2(x.scale()) as int;
    assert(0 <= s * p) by (nonlinear_arith)
        requires
            0 <= s,
            0 < p,
    ;
}

/// Only the encodings of zero stand for zero.
pub proof fn lemma_zero_magnitude(x: Binary64)
    ensures
        (x.scaled_magnitude() == 0) == (x.magnitude_bits() == 0),
        (x.position() == 0) == (x.magnitude_bits() == 0),
{
    lemma_scaled_magnitude_bounds(x);
    lemma_pow2_pos(x.scale());
    let s = x.significand();
    let p = pow2(x.scale()) as int;
    assert((s * p == 0) == (s == 0)) by (nonlinear_arith)
        requires
            0 <= s,
            0 < p,
    ;
}

/// Encodings with the sign bit cleared are ordered as the values they stand for: of two
/// encodings up to that of infinity, the smaller stands for the smaller magnitude.
pub proof fn lemma_magnitude_orders_values(a: Binary64, b: Binary64)
    requires
        a.magnitude_bits() <= INFINITY_BITS,
        b.magnitude_bits() <= INFINITY_BITS,
    ensures
        a.magnitude_bits() < b.magnitude_bits() ==> a.scaled_magnitude() < b.scaled_magnitude(),
        a.magnitude_bits() == b.magnitude_bits() ==> a.scaled_magnitude() == b.scaled_magnitude(),
{
    lemma_scaled_magnitude_bounds(a);
    lemma_scaled_magnitude_bounds(b);
    if a.magnitude_bits() < b.magnitude_bits() {
        let ea = a.biased_exponent();
        let eb = b.biased_exponent();
        let sa = a.significand();
        let sb = b.significand();
        let pa = pow2(a.scale()) as int;
        let pb = pow2(b.scale()) as int;
        lemma_pow2_pos(a.scale());
        lemma_pow2_pos(b.scale());
        if ea == eb {
            assert(sa * pa < sb * pa) by (nonlinear_arith)
                requires
                    sa < sb,
                    0 < pa,
            ;
        } else {
            assert(ea < eb);
            // Below the next power of two, which the larger exponent reaches.
            let next = pow2((a.scale() + 1) as nat) as int;
            lemma_pow2_unfold((a.scale() + 1) as nat);
            assert(next == 2 * pa);
            if ea == 0 {
                lemma2_to64();
                assert(a.scaled_magnitude() < FRACTION_RANGE) by (nonlinear_arith)
                    requires
                        a.scaled_magnitude() == sa * pa,
                        pa == 1,
                        sa < FRACTION_RANGE,
                ;
            } else {
                assert(sa * pa < FRACTION_RANGE * next) by (nonlinear_arith)
                    requires
                        sa < 2 * FRACTION_RANGE,
                        0 < pa,
                        next == 2 * pa,
                ;
                if a.scale() + 1 < b.scale() {
                    lemma_pow2_strictly_increases((a.scale() + 1) as nat, b.scale());
                }
                assert(next <= pb);
            }
            let low: int = if ea == 0 { 1 } else { next };
            assert(low <= pb);
            assert(FRACTION_RANGE * low <= sb * pb) by (nonlinear_arith)
                requires
                    FRACTION_RANGE <= sb,
                    0 < low <= pb,
            ;
        }
    }
}

/// Values are ordered as positions are, and the value of the opposite position is the
/// opposite value.
pub proof fn lemma_value_follows_position(a: Binary64, b: Binary64)
    ensures
        (a.value() < b.value()) == (a.position() < b.position()),
        (a.value() == b.value()) == (a.position() == b.position()),
        (a.value() < 0real) == (a.position() < 0),
        (a.value() == 0real) == (a.position() == 0),
        a.position() == -b.position() ==> a.value() == -b.value(),
{
    lemma_pow2_pos(1074);
    let x = a.position() as real;
    let y = b.position() as real;
    let u = unit() as real;
    assert((x / u < y / u) == (x < y) && (x / u == y / u) == (x == y) && (x / u < 0real) == (x
        < 0real) && (x / u == 0real) == (x == 0real) && (x == -y ==> x / u == -(y / u)))
        by (nonlinear_arith)
        requires
            u > 0real,
    ;
}

/// Among numbers that are not NaN, the order of IEEE 754 is the order of the positions.
pub proof fn lemma_position_orders_numbers(a: Binary64, b: Binary64)
    requires
        a@ != Number::NaN,
        b@ != Number::NaN,
    ensures
        number_lt(a@, b@) == (a.position() < b.position()),
        number_eq(a@, b@) == (a.position() == b.position()),
        number_le(a@, b@) == (a.position() <= b.position()),
{
    let top = Binary64 { bits: INFINITY_BITS };
    assert(top.magnitude_bits() == INFINITY_BITS);
    lemma_magnitude_orders_values(a, top);
    lemma_magnitude_orders_values(b, top);
    lemma_scaled_magnitude_bounds(a);
    lemma_scaled_magnitude_bounds(b);
    lemma_scaled_magnitude_bounds(top);
    lemma_zero_magnitude(top);
    lemma_value_follows_position(a, b);
}

/// The count of units of a finite number is its position.
pub proof fn lemma_count_of_units(x: Binary64)
    ensures
        (x.value() * unit() as real).floor() == x.position(),
{
    lemma_pow2_pos(1074);
    let p = x.position() as real;
    let u = unit() as real;
    assert(p / u * u == p) by (nonlinear_arith)
        requires
            u > 0real,
    ;
}

/// Taking one from the exponent of a normal number above the least halves its position.
proof fn lemma_halve_normal(x: Binary64, r: Binary64)
    requires
        2 * FRACTION_RANGE <= x.magnitude_bits() < INFINITY_BITS,
        r.bits == x.bits - FRACTION_RANGE,
    ensures
        r@ == number_half(x@),
        r.sign_bit_set() == x.sign_bit_set(),
        x.position() == 2 * r.position(),
{
    lemma_scaled_magnitude_bounds(x);
    lemma_scaled_magnitude_bounds(r);
    assert(r.magnitude_bits() == x.magnitude_bits() - FRACTION_RANGE);
    assert(r.biased_exponent() == x.biased_exponent() - 1);
    assert(r.fraction() == x.fraction());
    assert(r.significand() == x.significand());
    assert(x.scale() == r.scale() + 1);
    lemma_pow2_unfold(x.scale());
    let s = x.significand();
    let p = pow2(r.scale()) as int;
    assert(s * (2 * p) == 2 * (s * p)) by (nonlinear_arith);
    assert(x.scaled_magnitude() == 2 * r.scaled_magnitude());
    assert(x.position() == 2 * r.position());
    assert(half_to_even(x.position()) == r.position());
    lemma_count_of_units(x);
}

/// Halving the significand of a number below twice the least normal number, a tie going
/// to even, halves its position in the same way.
proof fn lemma_halve_small(x: Binary64, r: Binary64)
    requires
        x.magnitude_bits() < 2 * FRACTION_RANGE,
        r.sign_bit_set() == x.sign_bit_set(),
        r.magnitude_bits() == half_to_even(x.magnitude_bits()),
    ensures
        r@ == number_half(x@),
{
    lemma_scaled_magnitude_bounds(x);
    lemma_scaled_magnitude_bounds(r);
    lemma2_to64();
    assert(x.scale() == 0 && r.scale() == 0);
    assert(x.significand() == x.magnitude_bits());
    assert(r.significand() == r.magnitude_bits());
    assert(x.scaled_magnitude() == x.magnitude_bits()) by (nonlinear_arith)
        requires
            x.scaled_magnitude() == x.significand() * pow2(x.scale()),
            pow2(x.scale()) == 1,
            x.significand() == x.magnitude_bits(),
    ;
    assert(r.scaled_magnitude() == r.magnitude_bits()) by (nonlinear_arith)
        requires
            r.scaled_magnitude() == r.significand() * pow2(r.scale()),
            pow2(r.scale()) == 1,
            r.significand() == r.magnitude_bits(),
    ;
    let m = x.magnitude_bits();
    assert(half_to_even(-m) == -half_to_even(m));
    assert(r.position() == half_to_even(x.position()));
    lemma_count_of_units(x);
}

/// Halving is exact wherever the count of units is even, and so for every finite number
/// of magnitude `2^-1021` or more.
pub proof fn lemma_half_is_exact(x: Binary64)
    requires
        x@ is Finite,
        x.position() % 2 == 0 || x.magnitude_bits() >= 2 * FRACTION_RANGE,
    ensures
        number_half(x@) == (Number::Finite { value: x.value() / 2real }),
{
    if x.magnitude_bits() >= 2 * FRACTION_RANGE {
        let r = Binary64 { bits: (x.bits - FRACTION_RANGE) as u64 };
        lemma_halve_normal(x, r);
    }
    lemma_count_of_units(x);
    lemma_pow2_pos(1074);
    let k = half_to_even(x.position());
    assert(x.position() == 2 * k);
    let kr = k as real;
    let u = unit() as real;
    assert(kr / u == ((2real * kr) / u) / 2real) by (nonlinear_arith)
        requires
            u > 0real,
    ;
}

/// Two numbers at the same position, other than zero, have the same encoding.
pub proof fn lemma_encoding_of_position(a: Binary64, b: Binary64)
    requires
        a@ != Number::NaN,
        b@ != Number::NaN,
        a.position() == b.position(),
        a.position() != 0,
    ensures
        a.bits == b.bits,
{
    lemma_magnitude_orders_values(a, b);
    lemma_magnitude_orders_values(b, a);
    lemma_scaled_magnitude_bounds(a);
    lemma_scaled_magnitude_bounds(b);
}

/// The encodings `ONE_BITS` and `NEGATIVE_ONE_BITS` stand for `1` and `-1`.
pub proof fn lemma_one()
    ensures
        (Binary64 { bits: ONE_BITS })@ == (Number::Finite { value: 1real }),
        (Binary64 { bits: NEGATIVE_ONE_BITS })@ == (Number::Finite { value: -1real }),
        (Binary64 { bits: ONE_BITS }).position() == unit(),
        (Binary64 { bits: NEGATIVE_ONE_BITS }).position() == -unit(),
{
    let one = Binary64 { bits: ONE_BITS };
    let minus = Binary64 { bits: NEGATIVE_ONE_BITS };
    assert(one.biased_exponent() == 1023 && one.fraction() == 0);
    assert(minus.biased_exponent() == 1023 && minus.fraction() == 0);
    lemma2_to64_rest();
    lemma_pow2_adds(52, 1022);
    assert(one.scaled_magnitude() == unit());
    assert(minus.scaled_magnitude() == unit());
    lemma_pow2_pos(1074);
    let u = unit() as real;
    assert(u / u == 1real && (-u) / u == -1real) by (nonlinear_arith)
        requires
            u > 0real,
    ;
}

} // verus!
