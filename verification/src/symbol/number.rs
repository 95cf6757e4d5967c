use vstd::prelude::*;

verus! {

/// Two to the power 63: the sign of a binary64 value.
pub const SIGN: u64 = 0x8000_0000_0000_0000;

/// Two to the power 52: the bit that a normal significand leaves unwritten.
pub const HIDDEN: u64 = 0x0010_0000_0000_0000;

/// The magnitude of the infinities; every greater magnitude is not a number.
pub const INFINITY: u64 = 0x7FF0_0000_0000_0000;

/// Two to the power `k`.
pub open spec fn two_to(k: nat) -> nat
    decreases k,
{
    if k == 0 {
        1
    } else {
        2 * two_to((k - 1) as nat)
    }
}

/// The position of the highest bit of a positive number.
pub open spec fn log2(n: nat) -> nat
    decreases n,
{
    if n <= 1 {
        0
    } else {
        1 + log2(n / 2)
    }
}

pub proof fn lemma_two_to_adds(a: nat, b: nat)
    ensures
        two_to(a + b) == two_to(a) * two_to(b),
        two_to(a) > 0,
    decreases a,
{
    if a > 0 {
        let a1 = (a - 1) as nat;
        lemma_two_to_adds(a1, b);
        assert(a1 + b == (a + b - 1) as nat);
        assert(two_to(a + b) == 2 * two_to(a1 + b));
        assert(two_to(a) == 2 * two_to(a1));
        assert(2 * (two_to(a1) * two_to(b)) == (2 * two_to(a1)) * two_to(b)) by (nonlinear_arith);
    } else {
        assert(two_to(a) == 1);
        assert(a + b == b);
        assert(1 * two_to(b) == two_to(b));
    }
}

pub proof fn lemma_two_to_grows(a: nat, b: nat)
    requires
        a <= b,
    ensures
        two_to(a) <= two_to(b),
    decreases b,
{
    if a < b {
        lemma_two_to_grows(a, (b - 1) as nat);
    }
}

pub proof fn lemma_two_to_values()
    ensures
        two_to(0) == 1,
        two_to(11) == 0x800,
        two_to(12) == 0x1000,
        two_to(31) == 0x8000_0000,
        two_to(52) == 0x10_0000_0000_0000,
        two_to(53) == 0x20_0000_0000_0000,
        two_to(63) == 0x8000_0000_0000_0000,
        two_to(64) == 0x1_0000_0000_0000_0000,
{
    reveal_with_fuel(two_to, 13);
    assert(two_to(4) == 16);
    assert(two_to(7) == 128);
    assert(two_to(11) == 0x800);
    assert(two_to(12) == 0x1000);
    lemma_two_to_adds(12, 12);
    assert(two_to(24) == 0x100_0000);
    lemma_two_to_adds(24, 7);
    assert(two_to(31) == 0x8000_0000);
    lemma_two_to_adds(24, 24);
    assert(two_to(48) == 0x1_0000_0000_0000);
    lemma_two_to_adds(48, 4);
    assert(two_to(52) == 0x10_0000_0000_0000);
    lemma_two_to_adds(52, 1);
    assert(two_to(53) == 0x20_0000_0000_0000);
    lemma_two_to_adds(52, 11);
    assert(two_to(63) == 0x8000_0000_0000_0000);
    lemma_two_to_adds(52, 12);
    assert(two_to(64) == 0x1_0000_0000_0000_0000);
}

/// The highest bit of `n` is at `k` exactly when `n` lies between two to the
/// `k` and the next power.
pub proof fn lemma_log2(n: nat, k: nat)
    requires
        two_to(k) <= n < 2 * two_to(k),
    ensures
        log2(n) == k,
    decreases k,
{
    if k > 0 {
        lemma_log2(n / 2, (k - 1) as nat);
    }
}

/// A number of the language: an IEEE-754 binary64 value, held by its bits.
/// Sign, order, equality and the conversions from and to integers are read
/// off the bits here; sums, products, quotients and powers are not computed
/// by this library.
#[derive(Debug, Clone, Copy, PartialEq, Eq, Structural)]
pub struct Number {
    pub bits: u64,
}

impl Number {
    /// The bits without the sign.
    pub open spec fn magnitude(self) -> int {
        if self.bits >= SIGN {
            self.bits - SIGN
        } else {
            self.bits as int
        }
    }

    pub open spec fn negative(self) -> bool {
        self.bits >= SIGN
    }

    /// Whether the bits stand for no number.
    pub open spec fn nan(self) -> bool {
        self.magnitude() > INFINITY
    }

    /// Whether the value is zero, of either sign.
    pub open spec fn zero(self) -> bool {
        self.magnitude() == 0
    }

    /// The exponent as written: 0 for zero and subnormal values, 2047 for
    /// the infinities.
    pub open spec fn exponent(self) -> int {
        self.magnitude() / (HIDDEN as int)
    }

    /// The significand, the hidden bit included: the absolute value is the
    /// significand times two to the power `exponent - 1075`.
    pub open spec fn significand(self) -> int {
        if self.exponent() == 0 {
            self.magnitude() % (HIDDEN as int)
        } else {
            HIDDEN + self.magnitude() % (HIDDEN as int)
        }
    }

    /// The absolute value, rounded down to an integer.
    pub open spec fn whole(self) -> nat {
        let e = self.exponent();
        if e < 1023 {
            0
        } else if e >= 1075 {
            (self.significand() * two_to((e - 1075) as nat)) as nat
        } else {
            (self.significand() / (two_to((1075 - e) as nat) as int)) as nat
        }
    }

    /// A number that orders the values as the bits order them: magnitudes
    /// grow with the absolute value, and both zeros get 0.
    pub open spec fn order_key(self) -> int {
        if self.negative() {
            -self.magnitude()
        } else {
            self.magnitude()
        }
    }

    /// Equality of values: both are numbers, and they are the same value.
    /// The two zeros are equal; what is not a number equals nothing.
    pub open spec fn same_value(self, other: Number) -> bool {
        !self.nan() && !other.nan() && self.order_key() == other.order_key()
    }

    /// The order of values. What is not a number is below nothing and above
    /// nothing.
    pub open spec fn below(self, other: Number) -> bool {
        !self.nan() && !other.nan() && self.order_key() < other.order_key()
    }

    /// The value as an unsigned index: rounded towards zero, 0 for negative
    /// values and for what is not a number, the greatest index for values
    /// beyond it.
    pub open spec fn as_index(self) -> usize {
        if self.nan() || self.negative() {
            0
        } else if self.whole() > usize::MAX {
            usize::MAX
        } else {
            self.whole() as usize
        }
    }

    /// The value as a signed 32-bit integer: rounded towards zero, 0 for
    /// what is not a number, the nearest bound for values beyond the range.
    pub open spec fn as_int(self) -> i32 {
        if self.nan() {
            0
        } else if self.negative() {
            if self.whole() >= 0x8000_0000 {
                i32::MIN
            } else {
                (-(self.whole() as int)) as i32
            }
        } else {
            if self.whole() > i32::MAX {
                i32::MAX
            } else {
                self.whole() as i32
            }
        }
    }

    /// The bits of the value nearest to a natural number; of two that are
    /// equally near, the one with an even significand.
    pub open spec fn bits_of(n: nat) -> int {
        if n == 0 {
            0
        } else {
            let k = log2(n);
            if k <= 52 {
                (k + 1023) * HIDDEN + (n * two_to((52 - k) as nat) - HIDDEN)
            } else {
                let unit = two_to((k - 52) as nat);
                let q = n / unit;
                let r = n % unit;
                let up: int = if 2 * r > unit || (2 * r == unit && q % 2 == 1) {
                    1
                } else {
                    0
                };
                (k + 1023) * HIDDEN + (q + up - HIDDEN)
            }
        }
    }

    /// The bits of the value of an integer.
    pub open spec fn bits_of_int(n: int) -> int {
        if n >= 0 {
            Self::bits_of(n as nat)
        } else {
            SIGN + Self::bits_of((-n) as nat)
        }
    }

    /// Two to the power `k`.
    fn power_of_two(k: u64) -> (r: u64)
        requires
            k <= 63,
        ensures
            r == two_to(k as nat),
    {
        let mut r: u64 = 1;
        let mut i: u64 = 0;
        proof {
            lemma_two_to_values();
        }
        while i < k
            invariant
                i <= k <= 63,
                r == two_to(i as nat),
                two_to(63) == 0x8000_0000_0000_0000,
            decreases k - i,
        {
            proof {
                lemma_two_to_grows((i + 1) as nat, 63);
            }
            r = r * 2;
            i = i + 1;
        }
        r
    }

    pub fn is_nan(self) -> (r: bool)
        ensures
            r == self.nan(),
    {
        let magnitude: u64 = if self.bits >= SIGN {
            self.bits - SIGN
        } else {
            self.bits
        };
        magnitude > INFINITY
    }

    /// Whether the value is zero, of either sign.
    pub fn is_zero(self) -> (r: bool)
        ensures
            r == self.zero(),
    {
        self.bits == 0 || self.bits == SIGN
    }

    /// The value with the other sign.
    pub open spec fn negated(self) -> Number {
        if self.bits >= SIGN {
            Number { bits: (self.bits - SIGN) as u64 }
        } else {
            Number { bits: (self.bits + SIGN) as u64 }
        }
    }

    /// The value with the other sign.
    pub fn negate(self) -> (r: Number)
        ensures
            r == self.negated(),
            r.magnitude() == self.magnitude(),
            r.negative() == !self.negative(),
    {
        if self.bits >= SIGN {
            Number { bits: self.bits - SIGN }
        } else {
            Number { bits: self.bits + SIGN }
        }
    }

    /// Whether two numbers are the same value.
    pub fn equals(self, other: Number) -> (r: bool)
        ensures
            r == self.same_value(other),
    {
        if self.is_nan() || other.is_nan() {
            false
        } else {
            self.bits == other.bits || (self.is_zero() && other.is_zero())
        }
    }

    /// Whether this value is below the other.
    pub fn less_than(self, other: Number) -> (r: bool)
        ensures
            r == self.below(other),
    {
        if self.is_nan() || other.is_nan() {
            false
        } else if self.bits >= SIGN {
            if other.bits >= SIGN {
                self.bits > other.bits
            } else {
                !(self.is_zero() && other.is_zero())
            }
        } else {
            if other.bits >= SIGN {
                false
            } else {
                self.bits < other.bits
            }
        }
    }

    /// The absolute value rounded down, or the greatest `u64` where it is
    /// beyond.
    fn whole_part(self) -> (r: u64)
        requires
            !self.nan(),
        ensures
            self.whole() <= u64::MAX ==> r == self.whole(),
            self.whole() > u64::MAX ==> r == u64::MAX,
    {
        let magnitude: u64 = if self.bits >= SIGN {
            self.bits - SIGN
        } else {
            self.bits
        };
        let e: u64 = magnitude / HIDDEN;
        let f: u64 = magnitude % HIDDEN;
        if e < 1023 {
            return 0;
        }
        let m: u64 = HIDDEN + f;
        proof {
            lemma_two_to_values();
        }
        if e >= 1075 {
            let shift: u64 = e - 1075;
            if shift >= 12 {
                proof {
                    lemma_two_to_grows(12, shift as nat);
                    assert(m * two_to(shift as nat) >= 0x10_0000_0000_0000 * 0x1000)
                        by (nonlinear_arith)
                        requires
                            m >= 0x10_0000_0000_0000,
                            two_to(shift as nat) >= 0x1000,
                    ;
                }
                return u64::MAX;
            }
            let factor: u64 = Self::power_of_two(shift);
            proof {
                lemma_two_to_grows(shift as nat, 11);
                lemma_two_to_adds(shift as nat, 0);
                assert(m * factor < 0x20_0000_0000_0000 * 0x800) by (nonlinear_arith)
                    requires
                        m < 0x20_0000_0000_0000,
                        0 < factor <= 0x800,
                ;
            }
            m * factor
        } else {
            let shift: u64 = 1075 - e;
            let divisor: u64 = Self::power_of_two(shift);
            proof {
                lemma_two_to_adds(shift as nat, 0);
            }
            m / divisor
        }
    }

    /// The value as an unsigned index.
    pub fn to_index(self) -> (r: usize)
        ensures
            r == self.as_index(),
    {
        if self.is_nan() || self.bits >= SIGN {
            return 0;
        }
        let whole: u64 = self.whole_part();
        if whole > usize::MAX as u64 {
            usize::MAX
        } else {
            whole as usize
        }
    }

    /// The value as a signed 32-bit integer.
    pub fn to_int(self) -> (r: i32)
        ensures
            r == self.as_int(),
    {
        if self.is_nan() {
            return 0;
        }
        let whole: u64 = self.whole_part();
        if self.bits >= SIGN {
            if whole >= 0x8000_0000 {
                i32::MIN
            } else {
                -(whole as i32)
            }
        } else {
            if whole > 0x7FFF_FFFF {
                i32::MAX
            } else {
                whole as i32
            }
        }
    }

    /// The bits of the value nearest to `n`.
    fn nearest(n: u64) -> (r: u64)
        ensures
            r == Self::bits_of(n as nat),
            r < SIGN,
    {
        if n == 0 {
            return 0;
        }
        let mut k: u64 = 0;
        let mut p: u64 = 1;
        proof {
            lemma_two_to_values();
        }
        while p <= n / 2
            invariant
                k <= 63,
                p == two_to(k as nat),
                1 <= p <= n,
                two_to(63) == 0x8000_0000_0000_0000,
            decreases n - p,
        {
            proof {
                if k >= 63 {
                    lemma_two_to_grows(63, k as nat);
                }
            }
            p = p * 2;
            k = k + 1;
        }
        proof {
            lemma_log2(n as nat, k as nat);
        }
        if k <= 52 {
            let factor: u64 = Self::power_of_two(52 - k);
            proof {
                lemma_two_to_adds(k as nat, (52 - k) as nat);
                lemma_two_to_adds((52 - k) as nat, 0);
                assert(n * factor < 2 * (p * factor) && n * factor >= p * factor)
                    by (nonlinear_arith)
                    requires
                        p <= n < 2 * p,
                        factor > 0,
                ;
            }
            (k + 1023) * HIDDEN + (n * factor - HIDDEN)
        } else {
            let unit: u64 = Self::power_of_two(k - 52);
            proof {
                lemma_two_to_adds(52, (k - 52) as nat);
                lemma_two_to_adds((k - 52) as nat, 0);
                assert(n / unit >= 0x10_0000_0000_0000 && n / unit < 0x20_0000_0000_0000)
                    by (nonlinear_arith)
                    requires
                        0x10_0000_0000_0000 * unit <= n < 2 * (0x10_0000_0000_0000 * unit),
                        unit > 0,
                ;
            }
            let q: u64 = n / unit;
            let r: u64 = n % unit;
            let up: u64 = if r > unit - r || (r == unit - r && q % 2 == 1) {
                1
            } else {
                0
            };
            (k + 1023) * HIDDEN + (q + up - HIDDEN)
        }
    }

    /// The number nearest to an unsigned integer: the integer itself up to
    /// two to the power 53.
    pub fn from_usize(n: usize) -> (r: Number)
        ensures
            r.bits == Self::bits_of(n as nat),
    {
        Number { bits: Self::nearest(n as u64) }
    }

    /// The number of a signed 32-bit integer.
    pub fn from_int(n: i32) -> (r: Number)
        ensures
            r.bits == Self::bits_of_int(n as int),
    {
        if n >= 0 {
            Number { bits: Self::nearest(n as u64) }
        } else {
            let positive: u64 = (-(n as i64)) as u64;
            Number { bits: SIGN + Self::nearest(positive) }
        }
    }
}

} // verus!
