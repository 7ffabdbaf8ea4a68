//! Decimal numbers as `rust_decimal` represents them, and their comparison
//! with whole numbers.

use vstd::prelude::*;

verus! {

/// A decimal number as `rust_decimal` holds it: `mantissa / 10^scale`.
#[derive(Debug, Clone, Copy, PartialEq, Eq, Structural)]
pub struct DecimalValue {
    pub mantissa: i128,
    pub scale: u32,
}

/// Ten to the power `n`.
pub open spec fn pow10(n: nat) -> nat
    decreases n,
{
    if n == 0 {
        1
    } else {
        10 * pow10((n - 1) as nat)
    }
}

/// Whether the decimal is at most the whole number `k`.
pub open spec fn dec_le(d: DecimalValue, k: nat) -> bool {
    d.mantissa <= k * pow10(d.scale as nat)
}

/// Whether the decimal equals the whole number `k`.
pub open spec fn dec_eq(d: DecimalValue, k: nat) -> bool {
    d.mantissa == k * pow10(d.scale as nat)
}

proof fn lemma_pow10_grows(n: nat)
    ensures
        pow10(n) >= 1,
        pow10(n + 1) > pow10(n),
    decreases n,
{
    if n > 0 {
        lemma_pow10_grows((n - 1) as nat);
    }
}

proof fn lemma_pow10_monotone(a: nat, b: nat)
    requires
        a <= b,
    ensures
        pow10(a) <= pow10(b),
    decreases b,
{
    if a < b {
        lemma_pow10_monotone(a, (b - 1) as nat);
        lemma_pow10_grows((b - 1) as nat);
    }
}

proof fn lemma_scaled_monotone(k: nat, a: nat, b: nat)
    requires
        a <= b,
    ensures
        k * pow10(a) <= k * pow10(b),
{
    lemma_pow10_monotone(a, b);
    assert(k * pow10(a) <= k * pow10(b)) by (nonlinear_arith)
        requires
            pow10(a) <= pow10(b),
    ;
}

/// Compare `mantissa` with `k * 10^scale`: `-1`, `0` or `1` as it is
/// below, equal to or above.
fn compare_scaled(mantissa: i128, k: u8, scale: u32) -> (r: i8)
    requires
        1 <= k,
    ensures
        r == -1 <==> mantissa < k * pow10(scale as nat),
        r == 0 <==> mantissa == k * pow10(scale as nat),
        r == 1 <==> mantissa > k * pow10(scale as nat),
{
    if mantissa < k as i128 {
        proof {
            lemma_pow10_grows(scale as nat);
            assert(k * pow10(scale as nat) >= k * 1) by (nonlinear_arith)
                requires
                    pow10(scale as nat) >= 1,
                    k >= 1,
            ;
        }
        return -1;
    }
    let mut p: i128 = k as i128;
    let mut j: u32 = 0;
    while j < scale
        invariant
            j <= scale,
            1 <= k,
            p == k * pow10(j as nat),
            mantissa >= k,
        decreases scale - j,
    {
        if p > mantissa {
            proof {
                lemma_scaled_monotone(k as nat, j as nat, scale as nat);
            }
            return -1;
        }
        if p > i128::MAX / 10 {
            proof {
                lemma_scaled_monotone(k as nat, (j + 1) as nat, scale as nat);
                assert(k * pow10((j + 1) as nat) == 10 * (k * pow10(j as nat))) by (nonlinear_arith)
                    requires
                        pow10((j + 1) as nat) == 10 * pow10(j as nat),
                ;
            }
            return -1;
        }
        proof {
            assert(k * pow10((j + 1) as nat) == 10 * (k * pow10(j as nat))) by (nonlinear_arith)
                requires
                    pow10((j + 1) as nat) == 10 * pow10(j as nat),
            ;
        }
        p = p * 10;
        j = j + 1;
    }
    if mantissa < p {
        -1
    } else if mantissa == p {
        0
    } else {
        1
    }
}

impl DecimalValue {
    /// Whether the number is below zero.
    pub fn is_negative(&self) -> (r: bool)
        ensures
            r == (self.mantissa < 0),
    {
        self.mantissa < 0
    }

    /// Whether the number is zero.
    pub fn is_zero(&self) -> (r: bool)
        ensures
            r == (self.mantissa == 0),
    {
        self.mantissa == 0
    }

    /// Whether the number is at most the whole number `k >= 1`.
    pub fn at_most(&self, k: u8) -> (r: bool)
        requires
            1 <= k,
        ensures
            r == dec_le(*self, k as nat),
    {
        compare_scaled(self.mantissa, k, self.scale) <= 0
    }

    /// Whether the number equals the whole number `k >= 1`.
    pub fn equals(&self, k: u8) -> (r: bool)
        requires
            1 <= k,
        ensures
            r == dec_eq(*self, k as nat),
    {
        compare_scaled(self.mantissa, k, self.scale) == 0
    }
}

} // verus!
