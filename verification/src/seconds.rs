//! Lengths of time in seconds as double-precision numbers, held by their IEEE 754 bits, and their
//! doubling from one attempt to the next in exact integer arithmetic.

use vstd::arithmetic::div_mod::{lemma_basic_div, lemma_div_denominator};
use vstd::arithmetic::power2::{lemma_pow2_adds, lemma_pow2_pos, lemma_pow2_strictly_increases, lemma_pow2_unfold, lemma2_to64, pow2};
use vstd::prelude::*;

verus! {

/// 2 to the 52nd: the weight of the lowest exponent bit.
pub const FRACTION_SPAN: u64 = 0x10_0000_0000_0000;

/// 2 to the 63rd: the weight of the sign bit.
pub const SIGN_SPAN: u64 = 0x8000_0000_0000_0000;

/// A number of seconds: a double-precision number, by its bits.
#[derive(Clone, Copy, Debug, PartialEq, Eq, Structural)]
pub struct Seconds {
    pub bits: u64,
}

/// `m` times two to the power `p`, rounded towards zero.
pub open spec fn scaled(m: nat, p: int) -> nat {
    if p >= 0 {
        m * pow2(p as nat)
    } else {
        m / pow2((-p) as nat)
    }
}

/// `v` brought into the range of `i64`.
pub open spec fn clamped(v: int) -> int {
    if v > i64::MAX {
        i64::MAX as int
    } else if v < i64::MIN {
        i64::MIN as int
    } else {
        v
    }
}

impl Seconds {
    /// The number zero.
    pub open spec fn zero() -> Seconds {
        Seconds { bits: 0 }
    }

    pub open spec fn negative(self) -> bool {
        self.bits >= SIGN_SPAN
    }

    /// The exponent field.
    pub open spec fn exponent_field(self) -> nat {
        ((self.bits % SIGN_SPAN) / FRACTION_SPAN) as nat
    }

    /// The fraction field.
    pub open spec fn fraction(self) -> nat {
        (self.bits % FRACTION_SPAN) as nat
    }

    pub open spec fn is_nan(self) -> bool {
        self.exponent_field() == 2047 && self.fraction() != 0
    }

    pub open spec fn is_infinite(self) -> bool {
        self.exponent_field() == 2047 && self.fraction() == 0
    }

    /// A finite number is its mantissa times two to the power of its exponent, with its sign.
    pub open spec fn mantissa(self) -> nat {
        if self.exponent_field() == 0 {
            self.fraction()
        } else {
            self.fraction() + FRACTION_SPAN as nat
        }
    }

    pub open spec fn exponent(self) -> int {
        if self.exponent_field() == 0 {
            -1074
        } else {
            self.exponent_field() - 1075
        }
    }

    /// The number times two to the power `k`, as an `i64`: rounded towards zero, and held to the
    /// range of `i64`. Two to the power `k` is infinite from 1024 on and zero below -1074; a
    /// product that is no number counts as zero.
    pub open spec fn scaled_to_i64(self, k: int) -> int {
        if self.is_nan() {
            0
        } else if self.is_infinite() {
            if k < -1074 {
                0
            } else if self.negative() {
                i64::MIN as int
            } else {
                i64::MAX as int
            }
        } else if self.mantissa() == 0 {
            0
        } else if k >= 1024 {
            if self.negative() {
                i64::MIN as int
            } else {
                i64::MAX as int
            }
        } else if self.negative() {
            clamped(-(scaled(self.mantissa(), self.exponent() + k) as int))
        } else {
            clamped(scaled(self.mantissa(), self.exponent() + k) as int)
        }
    }

    /// Multiplies by two to the power `k` and converts to `i64`.
    pub fn scale_to_i64(&self, k: i32) -> (r: i64)
        ensures
            r == self.scaled_to_i64(k as int),
    {
        let negative: bool = self.bits >= SIGN_SPAN;
        let field: u64 = (self.bits % SIGN_SPAN) / FRACTION_SPAN;
        let fraction: u64 = self.bits % FRACTION_SPAN;
        proof {
            assert(field <= 2047) by (nonlinear_arith)
                requires
                    field == (self.bits % SIGN_SPAN) / FRACTION_SPAN,
            ;
        }
        if field == 2047 {
            if fraction != 0 || k < -1074 {
                return 0;
            }
            return if negative { i64::MIN } else { i64::MAX };
        }
        let mantissa: u64 = if field == 0 { fraction } else { fraction + FRACTION_SPAN };
        let exponent: i64 = if field == 0 { -1074 } else { field as i64 - 1075 };
        if mantissa == 0 {
            return 0;
        }
        if k >= 1024 {
            return if negative { i64::MIN } else { i64::MAX };
        }
        let size: u64 = scaled_size(mantissa, exponent + k as i64);
        if negative {
            if size >= SIGN_SPAN {
                i64::MIN
            } else {
                -(size as i64)
            }
        } else if size >= SIGN_SPAN {
            i64::MAX
        } else {
            size as i64
        }
    }
}

/// Computes `scaled`, held to two to the 63rd.
fn scaled_size(m: u64, p: i64) -> (r: u64)
    requires
        0 < m < 2 * FRACTION_SPAN,
        -5_000_000_000 < p < 5_000_000_000,
    ensures
        r == if scaled(m as nat, p as int) > SIGN_SPAN {
            SIGN_SPAN as int
        } else {
            scaled(m as nat, p as int) as int
        },
{
    if p >= 0 {
        let mut v: u64 = m;
        let mut j: i64 = 0;
        proof {
            lemma2_to64();
            assert(m * pow2(0) == m) by (nonlinear_arith)
                requires
                    pow2(0) == 1,
            ;
        }
        while j < p
            invariant
                0 <= j <= p,
                p < 5_000_000_000,
                0 < m,
                v == m * pow2(j as nat),
                v <= SIGN_SPAN,
            decreases p - j,
        {
            proof {
                lemma_pow2_unfold((j + 1) as nat);
                lemma_pow2_pos(j as nat);
                assert(m * pow2((j + 1) as nat) == 2 * (m * pow2(j as nat))) by (nonlinear_arith)
                    requires
                        pow2((j + 1) as nat) == 2 * pow2(j as nat),
                ;
            }
            if v > SIGN_SPAN / 2 {
                proof {
                    lemma_pow2_adds((j + 1) as nat, (p - j - 1) as nat);
                    lemma_pow2_pos((p - j - 1) as nat);
                    assert(m * pow2(p as nat) >= m * pow2((j + 1) as nat)) by (nonlinear_arith)
                        requires
                            pow2(p as nat) == pow2((j + 1) as nat) * pow2((p - j - 1) as nat),
                            pow2((p - j - 1) as nat) >= 1,
                            pow2((j + 1) as nat) >= 0,
                            m > 0,
                    ;
                }
                return SIGN_SPAN;
            }
            v = v * 2;
            j += 1;
        }
        v
    } else {
        let mut v: u64 = m;
        let mut j: i64 = 0;
        let q: i64 = -p;
        proof {
            lemma2_to64();
            assert(m as nat / 1nat == m as nat);
        }
        while j < q && v > 0
            invariant
                0 <= j <= q,
                v == m as nat / pow2(j as nat),
                v < 2 * FRACTION_SPAN,
            decreases q - j,
        {
            proof {
                lemma_pow2_unfold((j + 1) as nat);
                lemma_pow2_pos(j as nat);
                lemma_div_denominator(m as int, pow2(j as nat) as int, 2);
            }
            v = v / 2;
            j += 1;
        }
        proof {
            if j < q {
                lemma_pow2_pos(j as nat);
                lemma_pow2_strictly_increases(j as nat, q as nat);
                vstd::arithmetic::div_mod::lemma_small_div_converse(
                    m as int,
                    pow2(j as nat) as int,
                );
                lemma_basic_div(m as int, pow2(q as nat) as int);
            }
        }
        v
    }
}

impl DeepView for Seconds {
    type V = Seconds;

    open spec fn deep_view(&self) -> Seconds {
        *self
    }
}

/// One more power of two doubles the length of time, up to the fraction of a second that rounding
/// dropped, until the largest number of seconds is reached.
pub proof fn law_scaling_doubles(s: Seconds, k: int)
    requires
        !s.negative(),
        !s.is_nan(),
        0 <= k < 1023,
    ensures
        s.scaled_to_i64(k) >= 0,
        s.scaled_to_i64(k + 1) >= s.scaled_to_i64(k),
        s.scaled_to_i64(k + 1) < i64::MAX ==> {
            ||| s.scaled_to_i64(k + 1) == 2 * s.scaled_to_i64(k)
            ||| s.scaled_to_i64(k + 1) == 2 * s.scaled_to_i64(k) + 1
        },
{
    if !s.is_infinite() && s.mantissa() != 0 {
        let m = s.mantissa();
        let p = s.exponent() + k;
        if p >= 0 {
            lemma_pow2_unfold((p + 1) as nat);
            assert(m * pow2((p + 1) as nat) == 2 * (m * pow2(p as nat))) by (nonlinear_arith)
                requires
                    pow2((p + 1) as nat) == 2 * pow2(p as nat),
            ;
        } else {
            let d = pow2((-p - 1) as nat);
            lemma_pow2_unfold((-p) as nat);
            lemma_pow2_pos((-p - 1) as nat);
            lemma_div_denominator(m as int, d as int, 2);
            assert(pow2((-p) as nat) == d * 2);
            assert(scaled(m, p) == (m / d) / 2);
            if p == -1 {
                lemma2_to64();
                assert(m * pow2(0) == m) by (nonlinear_arith)
                    requires
                        pow2(0) == 1,
                ;
                assert(m / 1nat == m);
                assert(scaled(m, 0) == m);
            } else {
                assert(scaled(m, p + 1) == m / d);
            }
        }
    }
}

} // verus!
