//! IEEE-754 binary interchange values carried by their encodings.
//!
//! Lengths, quantities and mesh coordinates are binary64 (or binary32) numbers.
//! The library stores their encodings and states every decision it takes on
//! them in terms of the real numbers that the encodings denote.

use vstd::arithmetic::mul::{lemma_mul_is_associative, lemma_mul_strict_inequality, lemma_mul_inequality};
use vstd::arithmetic::power2::{lemma2_to64, lemma2_to64_rest, lemma_pow2_adds, lemma_pow2_pos, lemma_pow2_strictly_increases, pow2};
use vstd::prelude::*;

verus! {

/// Bit of the binary64 sign.
pub const SIGN_64: u64 = 0x8000_0000_0000_0000;

/// Weight of the lowest binary64 exponent bit.
pub const EXPONENT_UNIT_64: u64 = 0x10_0000_0000_0000;

/// Encoding of the binary64 number nearest to 10^-9 (`1e-9`).
pub const ONE_BILLIONTH_64: u64 = 0x3E11_2E0B_E826_D695;

/// The midpoint between `1e-9` and the next binary64 number up, in units of 2^-83: twice the
/// significand of `1e-9`, plus one.
pub const NEAR_BOUND_64: u64 = 0x22_5C17_D04D_AD2B;

/// Bit of the binary32 sign.
pub const SIGN_32: u32 = 0x8000_0000;

/// Weight of the lowest binary32 exponent bit.
pub const EXPONENT_UNIT_32: u32 = 0x80_0000;

/// A binary64 number, held as its encoding.
#[derive(Clone, Copy, Debug)]
pub struct Binary64 {
    pub bits: u64,
}

/// A binary32 number, held as its encoding.
#[derive(Clone, Copy, Debug)]
pub struct Binary32 {
    pub bits: u32,
}

impl Binary64 {
    pub open spec fn sign_set(self) -> bool {
        self.bits >= SIGN_64
    }

    pub open spec fn exponent_field(self) -> int {
        (self.bits % SIGN_64) as int / EXPONENT_UNIT_64 as int
    }

    pub open spec fn fraction_field(self) -> int {
        self.bits as int % EXPONENT_UNIT_64 as int
    }

    pub open spec fn is_nan(self) -> bool {
        self.exponent_field() == 2047 && self.fraction_field() != 0
    }

    pub open spec fn is_infinite(self) -> bool {
        self.exponent_field() == 2047 && self.fraction_field() == 0
    }

    /// Absolute value of a finite number, in units of 2^-1074.
    pub open spec fn magnitude(self) -> int {
        if self.exponent_field() == 0 {
            self.fraction_field()
        } else {
            (EXPONENT_UNIT_64 + self.fraction_field()) * pow2((self.exponent_field() - 1) as nat)
        }
    }

    /// Value of a finite number, in units of 2^-1074.
    pub open spec fn scaled_value(self) -> int {
        if self.sign_set() {
            -self.magnitude()
        } else {
            self.magnitude()
        }
    }

    /// The number is ordered and at most the integer `n`.
    pub open spec fn at_most_int(self, n: int) -> bool {
        &&& !self.is_nan()
        &&& if self.is_infinite() {
            self.sign_set()
        } else {
            self.scaled_value() <= n * pow2(1074)
        }
    }

    /// The number is ordered and greater than the integer `n`.
    pub open spec fn greater_than_int(self, n: int) -> bool {
        &&& !self.is_nan()
        &&& if self.is_infinite() {
            !self.sign_set()
        } else {
            self.scaled_value() > n * pow2(1074)
        }
    }

    /// IEEE-754 equality: NaN equals nothing and the two zeros are equal.
    pub open spec fn ieee_equal(self, other: Binary64) -> bool {
        &&& !self.is_nan()
        &&& !other.is_nan()
        &&& (self.bits == other.bits || (self.bits % SIGN_64 == 0 && other.bits % SIGN_64 == 0))
    }

    /// The binary64 number nearest to 10^-9.
    pub open spec fn one_billionth() -> Binary64 {
        Binary64 { bits: ONE_BILLIONTH_64 }
    }

    /// `(self - other).abs() <= 1e-9` in binary64 arithmetic. Both numbers are finite (else the
    /// difference is a NaN or infinite), and the exact difference rounds to nearest, ties to
    /// even, to at most `1e-9`: its size is below `1e-9` plus half a unit in its last place
    /// (2^-83). At that midpoint it rounds up, as the last significand bit of `1e-9` is odd.
    pub open spec fn near(self, other: Binary64) -> bool {
        let difference = self.scaled_value() - other.scaled_value();
        &&& self.exponent_field() < 2047
        &&& other.exponent_field() < 2047
        &&& (if difference < 0 { -difference } else { difference }) < Binary64::one_billionth().magnitude()
            + pow2(991)
    }

    /// The number denotes exactly the integer `n`.
    pub open spec fn denotes_int(self, n: int) -> bool {
        &&& !self.is_nan()
        &&& !self.is_infinite()
        &&& self.scaled_value() == n * pow2(1074)
    }

    pub fn from_bits(bits: u64) -> (r: Binary64)
        ensures
            r.bits == bits,
    {
        Binary64 { bits }
    }

    pub fn to_bits(self) -> (r: u64)
        ensures
            r == self.bits,
    {
        self.bits
    }

    /// Decides `self <= 0.0`.
    pub fn is_at_most_zero(self) -> (r: bool)
        ensures
            r == self.at_most_int(0),
    {
        proof {
            lemma_magnitude_zero_64(self);
        }
        let exponent = (self.bits % SIGN_64) / EXPONENT_UNIT_64;
        let fraction = self.bits % EXPONENT_UNIT_64;
        if exponent == 2047 && fraction != 0 {
            false
        } else {
            self.bits >= SIGN_64 || self.bits == 0
        }
    }

    /// The exact binary64 value of an unsigned 16-bit integer.
    pub fn from_u16(n: u16) -> (r: Binary64)
        ensures
            r.denotes_int(n as int),
            !r.sign_set(),
    {
        if n == 0 {
            proof {
                assert(pow2(1074) > 0) by { lemma_pow2_pos(1074); }
            }
            return Binary64 { bits: 0 };
        }
        let mut p: u64 = 1;
        let mut q: u64 = EXPONENT_UNIT_64;
        let mut e: u64 = 0;
        proof {
            lemma2_to64();
            lemma_pow2_adds(32, 20);
        }
        while p * 2 <= n as u64
            invariant
                1 <= p <= n,
                n < 65536,
                e <= 15,
                p == pow2(e as nat),
                q == pow2((52 - e) as nat),
                p * q == EXPONENT_UNIT_64,
            decreases n - p,
        {
            proof {
                lemma_pow2_adds(e as nat, 1);
                lemma_pow2_adds((52 - e - 1) as nat, 1);
                lemma2_to64();
                assert(p * 2 * (q / 2) == p * q) by (nonlinear_arith)
                    requires
                        q == pow2((52 - e - 1) as nat) * 2;
            }
            p = p * 2;
            q = q / 2;
            e = e + 1;
        }
        proof {
            lemma_pow2_pos((52 - e) as nat);
            assert((n - p) * q < p * q) by {
                lemma_mul_strict_inequality((n - p) as int, p as int, q as int);
            }
        }
        let fraction = (n as u64 - p) * q;
        let bits = (1023 + e) * EXPONENT_UNIT_64 + fraction;
        let r = Binary64 { bits };
        proof {
            assert(bits % SIGN_64 == bits);
            assert(r.exponent_field() == 1023 + e) by (nonlinear_arith)
                requires
                    bits == (1023 + e) * EXPONENT_UNIT_64 + fraction,
                    fraction < EXPONENT_UNIT_64,
                    r.exponent_field() == (bits % SIGN_64) as int / EXPONENT_UNIT_64 as int,
                    bits % SIGN_64 == bits;
            assert(r.fraction_field() == fraction) by (nonlinear_arith)
                requires
                    bits == (1023 + e) * EXPONENT_UNIT_64 + fraction,
                    fraction < EXPONENT_UNIT_64,
                    r.fraction_field() == bits as int % EXPONENT_UNIT_64 as int;
            assert(EXPONENT_UNIT_64 + fraction == n * q) by (nonlinear_arith)
                requires
                    fraction == (n - p) * q,
                    p * q == EXPONENT_UNIT_64;
            lemma_pow2_adds((52 - e) as nat, (1022 + e) as nat);
            lemma_mul_is_associative(n as int, q as int, pow2((1022 + e) as nat) as int);
        }
        r
    }

    /// Decides `self > f64::from(limit)`.
    pub fn exceeds_u16(self, limit: u16) -> (r: bool)
        ensures
            r == self.greater_than_int(limit as int),
    {
        let exponent = (self.bits % SIGN_64) / EXPONENT_UNIT_64;
        let fraction = self.bits % EXPONENT_UNIT_64;
        if exponent == 2047 {
            return fraction == 0 && self.bits < SIGN_64;
        }
        if self.bits >= SIGN_64 {
            proof {
                lemma_magnitude_nonneg_64(self);
                lemma_pow2_pos(1074);
            }
            return false;
        }
        let bound = Binary64::from_u16(limit);
        proof {
            if self.bits > bound.bits {
                lemma_magnitude_order_64(bound, self);
            } else if self.bits < bound.bits {
                lemma_magnitude_order_64(self, bound);
            }
        }
        self.bits > bound.bits
    }

    /// Decides IEEE-754 equality.
    pub fn equals(self, other: Binary64) -> (r: bool)
        ensures
            r == self.ieee_equal(other),
    {
        let ea = (self.bits % SIGN_64) / EXPONENT_UNIT_64;
        let eb = (other.bits % SIGN_64) / EXPONENT_UNIT_64;
        if ea == 2047 && self.bits % EXPONENT_UNIT_64 != 0 {
            return false;
        }
        if eb == 2047 && other.bits % EXPONENT_UNIT_64 != 0 {
            return false;
        }
        self.bits == other.bits || (self.bits % SIGN_64 == 0 && other.bits % SIGN_64 == 0)
    }

    /// Decides `(self - other).abs() <= 1e-9` in binary64 arithmetic.
    pub fn is_near(self, other: Binary64) -> (r: bool)
        ensures
            r == self.near(other),
    {
        let ea = (self.bits % SIGN_64) / EXPONENT_UNIT_64;
        let eb = (other.bits % SIGN_64) / EXPONENT_UNIT_64;
        if ea == 2047 || eb == 2047 {
            return false;
        }
        proof {
            lemma_near_bound();
            lemma_magnitude_nonneg_64(self);
            lemma_magnitude_nonneg_64(other);
            lemma2_to64();
            lemma2_to64_rest();
        }
        let (sa, ka) = significand_scale(self);
        let (sb, kb) = significand_scale(other);
        let same_sign = (self.bits >= SIGN_64) == (other.bits >= SIGN_64);
        let (big, kbig, small, ksmall) = if ka >= kb {
            (sa, ka, sb, kb)
        } else {
            (sb, kb, sa, ka)
        };
        let ghost mbig = big * pow2(kbig as nat);
        let ghost msmall = small * pow2(ksmall as nat);
        let ghost dist = if same_sign {
            if mbig >= msmall { mbig - msmall } else { msmall - mbig }
        } else {
            mbig + msmall
        };
        assert(self.near(other) == (dist < NEAR_BOUND_64 * pow2(991)));
        let shift = kbig - ksmall;
        if shift < 64 {
            proof {
                lemma_pow2_strictly_increases(shift as nat, 64);
                vstd::bits::lemma_u64_shl_is_mul(1, shift as u64);
            }
            let unit = 1u64 << shift;
            assert(big as u128 * unit as u128 <= 0x20_0000_0000_0000 * 0x1_0000_0000_0000_0000) by (nonlinear_arith)
                requires
                    0 <= big < 2 * EXPONENT_UNIT_64,
                    0 <= unit < 0x1_0000_0000_0000_0000,
            ;
            let a = big as u128 * unit as u128;
            let b = small as u128;
            let d = if same_sign {
                if a >= b {
                    a - b
                } else {
                    b - a
                }
            } else {
                a + b
            };
            proof {
                let fine = pow2(ksmall as nat);
                lemma_pow2_adds(shift as nat, ksmall as nat);
                lemma_pow2_pos(ksmall as nat);
                assert(mbig == a * fine) by (nonlinear_arith)
                    requires
                        mbig == big * pow2(kbig as nat),
                        pow2(kbig as nat) == unit * fine,
                        a == big * unit,
                ;
                assert(dist == d * fine) by (nonlinear_arith)
                    requires
                        mbig == a * fine,
                        msmall == b * fine,
                        fine > 0,
                        dist == if same_sign {
                            if mbig >= msmall { mbig - msmall } else { msmall - mbig }
                        } else {
                            mbig + msmall
                        },
                        d == if same_sign {
                            if a >= b { a - b } else { b - a }
                        } else {
                            a + b
                        },
                ;
            }
            scaled_less(d, ksmall, NEAR_BOUND_64 as u128, 991)
        } else {
            proof {
                lemma_wide_gap(big as int, kbig as nat, small as int, ksmall as nat, same_sign);
            }
            if kbig >= 994 {
                false
            } else if kbig <= 990 {
                true
            } else {
                proof {
                    if kbig < 993 {
                        lemma_pow2_strictly_increases((kbig - 991) as nat, 2);
                    }
                    vstd::bits::lemma_u64_shl_is_mul(1, (kbig - 991) as u64);
                }
                let step = 1u64 << (kbig - 991);
                assert(big * step < 0x80_0000_0000_0000) by (nonlinear_arith)
                    requires
                        0 <= big < 2 * EXPONENT_UNIT_64,
                        0 <= step <= 4,
                ;
                let p = big * step;
                if same_sign && small != 0 {
                    p <= NEAR_BOUND_64
                } else {
                    p < NEAR_BOUND_64
                }
            }
        }
    }
}

/// The significand and scale of a finite binary64 magnitude: `magnitude == significand *
/// 2^scale`, the significand below 2^53 and, on every scale but the lowest, at least 2^52.
fn significand_scale(x: Binary64) -> (r: (u64, u32))
    requires
        x.exponent_field() < 2047,
    ensures
        x.magnitude() == r.0 * pow2(r.1 as nat),
        r.0 < 2 * EXPONENT_UNIT_64,
        r.1 <= 2045,
        r.1 > 0 ==> r.0 >= EXPONENT_UNIT_64,
{
    let exponent = (x.bits % SIGN_64) / EXPONENT_UNIT_64;
    let fraction = x.bits % EXPONENT_UNIT_64;
    proof {
        lemma2_to64();
    }
    assert(exponent == x.exponent_field() && fraction == x.fraction_field());
    if exponent == 0 {
        assert(x.magnitude() == fraction * pow2(0));
        (fraction, 0)
    } else {
        (EXPONENT_UNIT_64 + fraction, (exponent - 1) as u32)
    }
}

/// Decides `x * 2^a < y * 2^b`.
fn scaled_less(x: u128, a: u32, y: u128, b: u32) -> (r: bool)
    ensures
        r == (x * pow2(a as nat) < y * pow2(b as nat)),
{
    proof {
        lemma_pow2_pos(a as nat);
        lemma_pow2_pos(b as nat);
        lemma2_to64();
        lemma2_to64_rest();
        lemma_pow2_adds(64, 64);
    }
    if a >= b {
        let s = a - b;
        let ghost sp = pow2(s as nat);
        let ghost bp = pow2(b as nat);
        proof {
            lemma_pow2_adds(s as nat, b as nat);
            lemma_pow2_pos(s as nat);
            assert((x * pow2(a as nat) < y * bp) == (x * sp < y)) by (nonlinear_arith)
                requires
                    pow2(a as nat) == sp * bp,
                    bp > 0,
            ;
        }
        if x == 0 {
            assert(x * sp == 0) by (nonlinear_arith)
                requires
                    x == 0,
            ;
            return y > 0;
        }
        if s >= 128 {
            proof {
                if s > 128 {
                    lemma_pow2_strictly_increases(128, s as nat);
                }
                assert(x * sp >= sp) by (nonlinear_arith)
                    requires
                        x >= 1,
                        sp > 0,
                ;
            }
            return false;
        }
        if y == 0 {
            return false;
        }
        let q = (y - 1) >> s;
        proof {
            vstd::bits::lemma_u128_shr_is_div((y - 1) as u128, s as u128);
            vstd::arithmetic::div_mod::lemma_fundamental_div_mod((y - 1) as int, sp as int);
            let rem = (y - 1) as int % sp as int;
            assert(0 <= rem < sp) by {
                vstd::arithmetic::div_mod::lemma_mod_bound((y - 1) as int, sp as int);
            }
            assert((x <= q) == (x * sp < y)) by (nonlinear_arith)
                requires
                    y - 1 == sp * q + rem,
                    0 <= rem < sp,
                    x >= 0,
                    q >= 0,
            ;
        }
        x <= q
    } else {
        let s = b - a;
        let ghost sp = pow2(s as nat);
        let ghost ap = pow2(a as nat);
        proof {
            lemma_pow2_adds(s as nat, a as nat);
            lemma_pow2_pos(s as nat);
            assert((x * ap < y * pow2(b as nat)) == (x < y * sp)) by (nonlinear_arith)
                requires
                    pow2(b as nat) == sp * ap,
                    ap > 0,
            ;
        }
        if y == 0 {
            return false;
        }
        if s >= 128 {
            proof {
                if s > 128 {
                    lemma_pow2_strictly_increases(128, s as nat);
                }
                assert(y * sp >= sp) by (nonlinear_arith)
                    requires
                        y >= 1,
                        sp > 0,
                ;
            }
            return true;
        }
        let q = x >> s;
        proof {
            vstd::bits::lemma_u128_shr_is_div(x, s as u128);
            vstd::arithmetic::div_mod::lemma_fundamental_div_mod(x as int, sp as int);
            let rem = x as int % sp as int;
            assert(0 <= rem < sp) by {
                vstd::arithmetic::div_mod::lemma_mod_bound(x as int, sp as int);
            }
            assert((q < y) == (x < y * sp)) by (nonlinear_arith)
                requires
                    x == sp * q + rem,
                    0 <= rem < sp,
                    y >= 0,
                    q >= 0,
            ;
        }
        q < y
    }
}

/// `1e-9` plus half a unit in its last place is `NEAR_BOUND_64 * 2^991` units of 2^-1074.
proof fn lemma_near_bound()
    ensures
        Binary64::one_billionth().magnitude() + pow2(991) == NEAR_BOUND_64 * pow2(991),
{
    let c = Binary64::one_billionth();
    assert(c.exponent_field() == 993);
    assert(c.fraction_field() == 0x12_E0BE_826D_695);
    lemma_pow2_adds(991, 1);
    lemma2_to64();
    assert(c.magnitude() == (EXPONENT_UNIT_64 + 0x12_E0BE_826D_695) * pow2(992));
    assert(c.magnitude() + pow2(991) == NEAR_BOUND_64 * pow2(991)) by (nonlinear_arith)
        requires
            c.magnitude() == (EXPONENT_UNIT_64 + 0x12_E0BE_826D_695) * pow2(992),
            pow2(992) == pow2(991) * 2,
            NEAR_BOUND_64 == 2 * (EXPONENT_UNIT_64 + 0x12_E0BE_826D_695) + 1,
    ;
}

/// With `0 <= m < w`, comparisons of `p * w` shifted by `m` against `t * w` only see `p` and `t`.
proof fn lemma_grid_compare(p: int, m: int, t: int, w: int)
    requires
        w > 0,
        0 <= m < w,
    ensures
        (p * w + m < t * w) == (p < t),
        m > 0 ==> ((p * w - m < t * w) == (p <= t)),
{
    if p < t {
        lemma_mul_inequality(p + 1, t, w);
        assert((p + 1) * w == p * w + w) by (nonlinear_arith);
    } else {
        lemma_mul_inequality(t, p, w);
    }
    if p <= t {
        lemma_mul_inequality(p, t, w);
    } else {
        lemma_mul_inequality(t + 1, p, w);
        assert((t + 1) * w == t * w + w) by (nonlinear_arith);
    }
}

/// The distance between a normal magnitude and one at least 2^64 times finer, against the
/// bound of `near`: it is decided by the coarser one alone but on three scales.
proof fn lemma_wide_gap(big: int, kbig: nat, small: int, ksmall: nat, same: bool)
    requires
        EXPONENT_UNIT_64 <= big < 2 * EXPONENT_UNIT_64,
        0 <= small < 2 * EXPONENT_UNIT_64,
        kbig >= ksmall + 64,
    ensures
        ({
            let mbig = big * pow2(kbig);
            let msmall = small * pow2(ksmall);
            let dist = if same {
                if mbig >= msmall { mbig - msmall } else { msmall - mbig }
            } else {
                mbig + msmall
            };
            let bound = NEAR_BOUND_64 * pow2(991);
            &&& kbig >= 994 ==> dist >= bound
            &&& kbig <= 990 ==> dist < bound
            &&& 991 <= kbig <= 993 ==> (dist < bound) == (if same && small != 0 {
                big * pow2((kbig - 991) as nat) <= NEAR_BOUND_64
            } else {
                big * pow2((kbig - 991) as nat) < NEAR_BOUND_64
            })
        }),
{
    lemma2_to64();
    lemma2_to64_rest();
    let u = pow2((kbig - 11) as nat);
    let fine = pow2(ksmall);
    let w = pow2(991);
    let mbig = big * pow2(kbig);
    let msmall = small * fine;
    lemma_pow2_pos(ksmall);
    lemma_pow2_pos((kbig - 11) as nat);
    lemma_pow2_adds((kbig - 11) as nat, 11);
    lemma_pow2_adds(53, ksmall);
    if 53 + ksmall < kbig - 11 {
        lemma_pow2_strictly_increases(53 + ksmall, (kbig - 11) as nat);
    }
    assert(pow2(53) == 2 * EXPONENT_UNIT_64);
    assert(pow2(11) == 2048);
    // The finer magnitude stays below one unit u, the coarser lies in [2^63 u, 2^64 u).
    assert(msmall < u) by (nonlinear_arith)
        requires
            msmall == small * fine,
            0 <= small < 2 * EXPONENT_UNIT_64,
            fine > 0,
            2 * EXPONENT_UNIT_64 * fine <= u,
    ;
    assert(msmall >= 0) by (nonlinear_arith)
        requires
            msmall == small * fine,
            small >= 0,
            fine > 0,
    ;
    assert(mbig == big * 2048 * u) by (nonlinear_arith)
        requires
            mbig == big * pow2(kbig),
            pow2(kbig) == u * 2048,
    ;
    assert(0x8000_0000_0000_0000 * u <= mbig < 0x1_0000_0000_0000_0000 * u) by (nonlinear_arith)
        requires
            mbig == big * 2048 * u,
            EXPONENT_UNIT_64 <= big < 2 * EXPONENT_UNIT_64,
            u > 0,
    ;
    if kbig >= 994 {
        if kbig > 994 {
            lemma_pow2_strictly_increases(983, (kbig - 11) as nat);
        }
        lemma_pow2_adds(983, 8);
        lemma_pow2_pos(983);
        assert(pow2(8) == 256);
        assert(mbig - msmall >= NEAR_BOUND_64 * w) by (nonlinear_arith)
            requires
                0x8000_0000_0000_0000 * u <= mbig,
                msmall < u,
                u >= pow2(983),
                w == pow2(983) * 256,
                pow2(983) > 0,
                NEAR_BOUND_64 < 0x40_0000_0000_0000,
        ;
    } else if kbig <= 990 {
        if kbig < 990 {
            lemma_pow2_strictly_increases((kbig - 11) as nat, 979);
        }
        lemma_pow2_adds(979, 12);
        assert(pow2(12) == 4096);
        lemma_pow2_pos(979);
        assert(mbig + msmall < NEAR_BOUND_64 * w) by (nonlinear_arith)
            requires
                mbig < 0x1_0000_0000_0000_0000 * u,
                msmall < u,
                u <= pow2(979),
                w == pow2(979) * 4096,
                NEAR_BOUND_64 >= 0x20_0000_0000_0000,
        ;
    } else {
        let t = (kbig - 991) as nat;
        lemma_pow2_adds(t, 991);
        lemma_pow2_strictly_increases((kbig - 11) as nat, 991);
        lemma_pow2_pos(991);
        assert(mbig == (big * pow2(t)) * w) by (nonlinear_arith)
            requires
                mbig == big * pow2(kbig),
                pow2(kbig) == pow2(t) * w,
        ;
        lemma_grid_compare(big * pow2(t), msmall, NEAR_BOUND_64 as int, w as int);
        assert((msmall == 0) == (small == 0)) by (nonlinear_arith)
            requires
                msmall == small * fine,
                fine > 0,
        ;
    }
}

impl PartialEq for Binary64 {
    fn eq(&self, other: &Binary64) -> (r: bool) {
        self.equals(*other)
    }
}

impl vstd::std_specs::cmp::PartialEqSpecImpl for Binary64 {
    open spec fn obeys_eq_spec() -> bool {
        true
    }

    open spec fn eq_spec(&self, other: &Binary64) -> bool {
        self.ieee_equal(*other)
    }
}

impl Binary32 {
    pub open spec fn sign_set(self) -> bool {
        self.bits >= SIGN_32
    }

    pub open spec fn exponent_field(self) -> int {
        (self.bits % SIGN_32) as int / EXPONENT_UNIT_32 as int
    }

    pub open spec fn fraction_field(self) -> int {
        self.bits as int % EXPONENT_UNIT_32 as int
    }

    pub open spec fn is_nan(self) -> bool {
        self.exponent_field() == 255 && self.fraction_field() != 0
    }

    pub open spec fn is_infinite(self) -> bool {
        self.exponent_field() == 255 && self.fraction_field() == 0
    }

    /// Absolute value of a finite number, in units of 2^-149.
    pub open spec fn magnitude(self) -> int {
        if self.exponent_field() == 0 {
            self.fraction_field()
        } else {
            (EXPONENT_UNIT_32 + self.fraction_field()) * pow2((self.exponent_field() - 1) as nat)
        }
    }

    /// Value of a finite number, in units of 2^-149.
    pub open spec fn scaled_value(self) -> int {
        if self.sign_set() {
            -self.magnitude()
        } else {
            self.magnitude()
        }
    }

    /// The number is ordered and at most zero.
    pub open spec fn at_most_zero(self) -> bool {
        &&& !self.is_nan()
        &&& if self.is_infinite() {
            self.sign_set()
        } else {
            self.scaled_value() <= 0
        }
    }

    /// IEEE-754 equality: NaN equals nothing and the two zeros are equal.
    pub open spec fn ieee_equal(self, other: Binary32) -> bool {
        &&& !self.is_nan()
        &&& !other.is_nan()
        &&& (self.bits == other.bits || (self.bits % SIGN_32 == 0 && other.bits % SIGN_32 == 0))
    }

    pub fn from_bits(bits: u32) -> (r: Binary32)
        ensures
            r.bits == bits,
    {
        Binary32 { bits }
    }

    pub fn to_bits(self) -> (r: u32)
        ensures
            r == self.bits,
    {
        self.bits
    }

    /// Decides `self <= 0.0`.
    pub fn is_at_most_zero(self) -> (r: bool)
        ensures
            r == self.at_most_zero(),
    {
        proof {
            lemma_magnitude_zero_32(self);
        }
        let exponent = (self.bits % SIGN_32) / EXPONENT_UNIT_32;
        let fraction = self.bits % EXPONENT_UNIT_32;
        if exponent == 255 && fraction != 0 {
            false
        } else {
            self.bits >= SIGN_32 || self.bits == 0
        }
    }

    /// Decides IEEE-754 equality.
    pub fn equals(self, other: Binary32) -> (r: bool)
        ensures
            r == self.ieee_equal(other),
    {
        let ea = (self.bits % SIGN_32) / EXPONENT_UNIT_32;
        let eb = (other.bits % SIGN_32) / EXPONENT_UNIT_32;
        if ea == 255 && self.bits % EXPONENT_UNIT_32 != 0 {
            return false;
        }
        if eb == 255 && other.bits % EXPONENT_UNIT_32 != 0 {
            return false;
        }
        self.bits == other.bits || (self.bits % SIGN_32 == 0 && other.bits % SIGN_32 == 0)
    }
}

impl PartialEq for Binary32 {
    fn eq(&self, other: &Binary32) -> (r: bool) {
        self.equals(*other)
    }
}

impl vstd::std_specs::cmp::PartialEqSpecImpl for Binary32 {
    open spec fn obeys_eq_spec() -> bool {
        true
    }

    open spec fn eq_spec(&self, other: &Binary32) -> bool {
        self.ieee_equal(*other)
    }
}

proof fn lemma_magnitude_nonneg_64(x: Binary64)
    ensures
        x.magnitude() >= 0,
        x.exponent_field() > 0 ==> x.magnitude() > 0,
{
    if x.exponent_field() > 0 {
        lemma_pow2_pos((x.exponent_field() - 1) as nat);
        vstd::arithmetic::mul::lemma_mul_strictly_positive(
            EXPONENT_UNIT_64 + x.fraction_field(),
            pow2((x.exponent_field() - 1) as nat) as int,
        );
    }
}

proof fn lemma_magnitude_zero_64(x: Binary64)
    ensures
        (x.magnitude() == 0) == (x.bits % SIGN_64 == 0),
        x.magnitude() >= 0,
{
    lemma_magnitude_nonneg_64(x);
}

proof fn lemma_magnitude_zero_32(x: Binary32)
    ensures
        (x.magnitude() == 0) == (x.bits % SIGN_32 == 0),
        x.magnitude() >= 0,
{
    if x.exponent_field() > 0 {
        lemma_pow2_pos((x.exponent_field() - 1) as nat);
        vstd::arithmetic::mul::lemma_mul_strictly_positive(
            EXPONENT_UNIT_32 + x.fraction_field(),
            pow2((x.exponent_field() - 1) as nat) as int,
        );
    }
}

/// A positive normal binary32 number is greater than zero.
pub proof fn lemma_normal_positive_32(x: Binary32)
    requires
        x.bits < SIGN_32,
        0 < x.exponent_field() < 255,
    ensures
        !x.at_most_zero(),
{
    lemma_magnitude_zero_32(x);
}

/// A finite binary64 magnitude stays below the smallest magnitude of the next exponent.
proof fn lemma_magnitude_below_next_64(x: Binary64)
    requires
        x.exponent_field() < 2047,
    ensures
        x.magnitude() < EXPONENT_UNIT_64 * pow2(x.exponent_field() as nat),
{
    let e = x.exponent_field();
    if e == 0 {
        lemma2_to64();
    } else {
        lemma_pow2_adds((e - 1) as nat, 1);
        lemma2_to64();
        lemma_pow2_pos((e - 1) as nat);
        lemma_mul_strict_inequality(
            EXPONENT_UNIT_64 + x.fraction_field(),
            2 * EXPONENT_UNIT_64,
            pow2((e - 1) as nat) as int,
        );
        lemma_mul_is_associative(EXPONENT_UNIT_64 as int, 2, pow2((e - 1) as nat) as int);
    }
}

/// Among non-negative finite binary64 numbers, the order of encodings is the order of values.
proof fn lemma_magnitude_order_64(a: Binary64, b: Binary64)
    requires
        a.bits < SIGN_64,
        b.bits < SIGN_64,
        a.exponent_field() < 2047,
        b.exponent_field() < 2047,
        a.bits < b.bits,
    ensures
        a.scaled_value() < b.scaled_value(),
{
    let ea = a.exponent_field();
    let eb = b.exponent_field();
    assert(a.bits == ea * EXPONENT_UNIT_64 + a.fraction_field());
    assert(b.bits == eb * EXPONENT_UNIT_64 + b.fraction_field());
    if ea == eb {
        if ea > 0 {
            lemma_pow2_pos((ea - 1) as nat);
            lemma_mul_strict_inequality(
                EXPONENT_UNIT_64 + a.fraction_field(),
                EXPONENT_UNIT_64 + b.fraction_field(),
                pow2((ea - 1) as nat) as int,
            );
        }
    } else {
        assert(ea < eb) by (nonlinear_arith)
            requires
                a.bits == ea * EXPONENT_UNIT_64 + a.fraction_field(),
                b.bits == eb * EXPONENT_UNIT_64 + b.fraction_field(),
                0 <= a.fraction_field() < EXPONENT_UNIT_64,
                0 <= b.fraction_field() < EXPONENT_UNIT_64,
                a.bits < b.bits,
                ea != eb;
        lemma_magnitude_below_next_64(a);
        if ea < eb - 1 {
            lemma_pow2_strictly_increases(ea as nat, (eb - 1) as nat);
        }
        lemma_mul_inequality(
            pow2(ea as nat) as int,
            pow2((eb - 1) as nat) as int,
            EXPONENT_UNIT_64 as int,
        );
        lemma_mul_inequality(
            EXPONENT_UNIT_64 as int,
            EXPONENT_UNIT_64 + b.fraction_field(),
            pow2((eb - 1) as nat) as int,
        );
    }
}

} // verus!
