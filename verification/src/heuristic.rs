//! Scaling whole seconds by a single-precision fraction, as binary floating point does it.

use vstd::arithmetic::div_mod::lemma_div_denominator;
use vstd::arithmetic::power2::lemma_pow2_pos;
use vstd::arithmetic::power2::lemma_pow2_strictly_increases;
use vstd::arithmetic::power2::lemma_pow2_unfold;
use vstd::arithmetic::power2::lemma2_to64;
use vstd::prelude::*;

verus! {

/// A fraction in the IEEE 754 single-precision format, given by its bits.
#[derive(Clone, Copy, Debug, PartialEq, Eq, Structural)]
pub struct Fraction {
    /// From the highest bit down: one sign bit, eight bits of exponent, 23 bits of significand.
    pub bits: u32,
}

/// The power of two that parts neighbouring 53-bit numbers at `x`.
pub open spec fn unit(x: nat) -> nat
    decreases x,
{
    if x < 0x20_0000_0000_0000 {
        1
    } else {
        2 * unit(x / 2)
    }
}

/// The multiple of `u` nearest to `x`; of two that are equally near, the even multiple.
pub open spec fn nearest(x: nat, u: nat) -> nat {
    let q = x / u;
    let r = x % u;
    if 2 * r < u || (2 * r == u && q % 2 == 0) {
        q * u
    } else {
        (q + 1) * u
    }
}

/// `x` rounded to 53 significant bits, as double precision holds it.
pub open spec fn rounded(x: nat) -> nat {
    nearest(x, unit(x))
}

/// The largest number of seconds.
pub open spec fn limit() -> nat {
    u64::MAX as nat
}

impl Fraction {
    /// Whether the sign is negative.
    pub open spec fn is_negative(self) -> bool {
        self.bits >= 0x8000_0000
    }

    /// The exponent as it is stored.
    pub open spec fn exponent(self) -> nat {
        ((self.bits / 0x80_0000) % 256) as nat
    }

    /// The stored bits of the significand.
    pub open spec fn mantissa(self) -> nat {
        (self.bits % 0x80_0000) as nat
    }

    /// The significand as a whole number.
    pub open spec fn significand(self) -> nat {
        if self.exponent() == 0 {
            self.mantissa()
        } else {
            self.mantissa() + 0x80_0000
        }
    }

    /// The power of two by which the significand is scaled.
    pub open spec fn power(self) -> int {
        if self.exponent() == 0 {
            -149
        } else {
            self.exponent() - 150
        }
    }

    /// `secs` times this fraction in double precision, cut to a whole number of seconds.
    ///
    /// The product is rounded to 53 bits, and so is `secs` before it. What is negative or not a
    /// number comes out as zero, what is too large as the largest number of seconds.
    pub open spec fn scaled(self, secs: nat) -> nat {
        let product = rounded(rounded(secs) * self.significand());
        if self.is_negative() {
            0
        } else if self.exponent() == 255 {
            if self.mantissa() != 0 || secs == 0 {
                0
            } else {
                limit()
            }
        } else if self.power() < 0 {
            capped(product / vstd::arithmetic::power2::pow2((-self.power()) as nat))
        } else {
            capped(product * vstd::arithmetic::power2::pow2(self.power() as nat))
        }
    }

    /// Scales whole seconds by this fraction.
    pub fn scale(self, secs: u64) -> (r: u64)
        ensures
            r == self.scaled(secs as nat),
    {
        if self.bits >= 0x8000_0000 {
            return 0;
        }
        let exponent: u32 = (self.bits / 0x80_0000) % 256;
        let mantissa: u32 = self.bits % 0x80_0000;
        if exponent == 255 {
            return if mantissa != 0 || secs == 0 {
                0
            } else {
                u64::MAX
            };
        }
        let significand: u32 = if exponent == 0 {
            mantissa
        } else {
            mantissa + 0x80_0000
        };
        let whole: u128 = round(secs as u128);
        assert(whole * significand <= 0x2_0000_0000_0000_0000 * 0x100_0000) by (nonlinear_arith)
            requires
                whole <= 0x2_0000_0000_0000_0000,
                significand <= 0x100_0000,
        ;
        let product: u128 = round(whole * significand as u128);
        if exponent == 0 {
            halve(product, 149)
        } else if exponent < 150 {
            halve(product, 150 - exponent)
        } else {
            double(product, exponent - 150)
        }
    }
}

/// `n`, or the largest number of seconds where that is smaller.
pub open spec fn capped(n: nat) -> nat {
    if n <= limit() {
        n
    } else {
        limit()
    }
}

fn unit_of(x: u128) -> (u: u128)
    ensures
        u == unit(x as nat),
        u == 1 || 1 <= u <= x,
    decreases x,
{
    if x < 0x20_0000_0000_0000 {
        1
    } else {
        2 * unit_of(x / 2)
    }
}

fn round(x: u128) -> (r: u128)
    requires
        x <= 0x200_0000_0000_0000_0000_0000_0000,
    ensures
        r == rounded(x as nat),
        r <= 2 * x,
{
    let u: u128 = unit_of(x);
    let q: u128 = x / u;
    let rest: u128 = x % u;
    assert(q * u + rest == x && rest < u && q * u <= x && (q + 1) * u == q * u + u) by (nonlinear_arith)
        requires
            u >= 1,
            q == x / u,
            rest == x % u,
    ;
    if u == 1 {
        assert(rest == 0);
    }
    if 2 * rest < u || (2 * rest == u && q % 2 == 0) {
        q * u
    } else {
        (q + 1) * u
    }
}

fn halve(n: u128, times: u32) -> (r: u64)
    ensures
        r == capped(n as nat / vstd::arithmetic::power2::pow2(times as nat)),
{
    let mut cur: u128 = n;
    let mut i: u32 = 0;
    proof {
        lemma2_to64();
    }
    while i < times
        invariant
            0 <= i <= times,
            cur == n as nat / vstd::arithmetic::power2::pow2(i as nat),
        decreases times - i,
    {
        proof {
            lemma_pow2_pos(i as nat);
            lemma_pow2_unfold((i + 1) as nat);
            let p = vstd::arithmetic::power2::pow2(i as nat) as int;
            lemma_div_denominator(n as int, p, 2);
            assert(p * 2 == 2 * p);
        }
        cur = cur / 2;
        i = i + 1;
    }
    if cur <= u64::MAX as u128 {
        cur as u64
    } else {
        u64::MAX
    }
}

fn double(n: u128, times: u32) -> (r: u64)
    ensures
        r == capped(n as nat * vstd::arithmetic::power2::pow2(times as nat)),
{
    let mut cur: u128 = n;
    let mut i: u32 = 0;
    proof {
        lemma2_to64();
    }
    while i < times && cur <= u64::MAX as u128
        invariant
            0 <= i <= times,
            cur == n as nat * vstd::arithmetic::power2::pow2(i as nat),
        decreases times - i,
    {
        proof {
            lemma_pow2_unfold((i + 1) as nat);
            let p = vstd::arithmetic::power2::pow2(i as nat);
            assert(n as nat * (2 * p) == 2 * (n as nat * p)) by (nonlinear_arith);
        }
        cur = 2 * cur;
        i = i + 1;
    }
    if cur <= u64::MAX as u128 {
        cur as u64
    } else {
        proof {
            let p = vstd::arithmetic::power2::pow2(i as nat);
            let full = vstd::arithmetic::power2::pow2(times as nat);
            if i < times {
                lemma_pow2_strictly_increases(i as nat, times as nat);
            }
            assert(n as nat * p <= n as nat * full) by (nonlinear_arith)
                requires
                    p <= full,
            ;
        }
        u64::MAX
    }
}

} // verus!
