//! Exact arithmetic beyond 128 bits: sums, and products over a divisor.

use vstd::prelude::*;
use vstd::arithmetic::div_mod::*;
use vstd::arithmetic::power2::*;
use crate::quant::{fitted, rounded, rounded_is, rounded_is_monotone, rounded_multiple};

verus! {

/// Two to the power of sixty-four.
pub const WORD: i128 = 18446744073709551616;

/// A sum of 128-bit integers, as `high * 2^64 + low`.
#[derive(Clone, Copy, Debug)]
pub struct WideSum {
    high: i128,
    low: i128,
}

impl View for WideSum {
    type V = int;

    closed spec fn view(&self) -> int {
        self.high * 18446744073709551616 + self.low
    }
}

/// True if a sum is one of so many 128-bit integers at most.
pub open spec fn of_at_most(sum: int, n: int) -> bool {
    -0x8000_0000_0000_0000_0000_0000_0000_0000int * n <= sum
        <= 0x8000_0000_0000_0000_0000_0000_0000_0000int * n
}

/// The number of words in `g`, rounded down, and what is left.
fn split(g: i128) -> (r: (i128, i128))
    ensures
        r.0 * 18446744073709551616 + r.1 == g,
        0 <= r.1 < 18446744073709551616,
        -0x8000_0000_0000_0000 <= r.0 <= 0x7fff_ffff_ffff_ffff,
{
    if g >= 0 {
        let h: i128 = g / WORD;
        let l: i128 = g % WORD;
        proof {
            lemma_fundamental_div_mod(g as int, WORD as int);
        }
        (h, l)
    } else {
        let m: i128 = -(g + 1);
        let h: i128 = m / WORD;
        let l: i128 = m % WORD;
        proof {
            lemma_fundamental_div_mod(m as int, WORD as int);
        }
        (-h - 1, WORD - 1 - l)
    }
}

impl WideSum {
    #[verifier::type_invariant]
    spec fn valid(self) -> bool {
        0 <= self.low < 18446744073709551616
    }

    /// The sum of nothing.
    pub fn new() -> (r: WideSum)
        ensures
            r@ == 0,
    {
        WideSum { high: 0, low: 0 }
    }

    /// The sum with `g` added to it.
    pub fn plus(self, g: i128) -> (r: WideSum)
        requires
            of_at_most(self@, 0x7fff_ffff_ffff_ffff),
        ensures
            r@ == self@ + g,
    {
        proof {
            use_type_invariant(&self);
        }
        let (h, l) = split(g);
        let low: i128 = self.low + l;
        if low >= WORD {
            WideSum { high: self.high + h + 1, low: low - WORD }
        } else {
            WideSum { high: self.high + h, low }
        }
    }

    /// The sum, as far as a 128-bit integer holds it.
    pub fn fit(self) -> (r: i128)
        ensures
            r == fitted(self@),
    {
        proof {
            use_type_invariant(&self);
        }
        if self.high >= 0x8000_0000_0000_0000 {
            i128::MAX
        } else if self.high < -0x8000_0000_0000_0000 {
            i128::MIN
        } else {
            self.high * WORD + self.low
        }
    }

    /// True if a 128-bit integer holds the sum.
    pub fn fits(self) -> (r: bool)
        ensures
            r == (i128::MIN <= self@ <= i128::MAX),
    {
        proof {
            use_type_invariant(&self);
        }
        -0x8000_0000_0000_0000 <= self.high && self.high < 0x8000_0000_0000_0000
    }

    /// True if the sum and `other` differ by more than `tolerance`.
    pub fn differs(self, other: i128, tolerance: i128) -> (r: bool)
        requires
            of_at_most(self@, 0x7fff_ffff_ffff_ffff),
            0 <= tolerance <= 0x1_0000_0000_0000_0000_0000,
        ensures
            r == (self@ - other > tolerance || other - self@ > tolerance),
    {
        proof {
            use_type_invariant(&self);
        }
        let (h, l) = split(other);
        let high: i128 = self.high - h;
        let low: i128 = self.low - l;
        if high > 0x1_0000_0000 || high < -0x1_0000_0000 {
            true
        } else {
            let d: i128 = high * WORD + low;
            d > tolerance || -d > tolerance
        }
    }

    /// The sum over `n`, rounded to the nearest integer, halves away from zero.
    pub fn over(self, n: u64) -> (r: i128)
        requires
            n > 0,
            i128::MIN < rounded(self@, n as int) <= i128::MAX,
            of_at_most(self@, 0x7fff_ffff_ffff_ffff),
        ensures
            r == rounded(self@, n as int),
    {
        proof {
            use_type_invariant(&self);
        }
        let negative: bool = self.high < 0;
        let (high, low): (i128, i128) = if !negative {
            (self.high, self.low)
        } else if self.low == 0 {
            (-self.high, 0)
        } else {
            (-self.high - 1, WORD - self.low)
        };
        let ghost m = high * 18446744073709551616 + low;
        assert(m == if negative {
            -self@
        } else {
            self@
        });
        let d: i128 = n as i128;
        let qh: i128 = high / d;
        let rh: i128 = high % d;
        proof {
            lemma_fundamental_div_mod(high as int, d as int);
            assert(rh * 18446744073709551616 + low < 0x1_0000_0000_0000_0000_0000_0000_0000_0000int)
                by {
                assert(rh <= 18446744073709551614);
            }
        }
        let rest: u128 = (rh as u128) * 18446744073709551616 + low as u128;
        let ql: u128 = rest / (n as u128);
        let left: u128 = rest % (n as u128);
        let carry: u128 = if left >= n as u128 - left {
            1
        } else {
            0
        };
        proof {
            lemma_fundamental_div_mod(rest as int, n as int);
            let exact = qh * 18446744073709551616 + ql + carry;
            assert(m == (qh * 18446744073709551616 + ql) * n + left) by (nonlinear_arith)
                requires
                    m == high * 18446744073709551616 + low,
                    high == d * qh + rh,
                    d == n,
                    rest == rh * 18446744073709551616 + low,
                    rest == n * ql + left,
            ;
            assert(exact * n == (qh * 18446744073709551616 + ql) * n + carry * n) by (nonlinear_arith)
                requires
                    exact == qh * 18446744073709551616 + ql + carry,
            ;
            assert(carry * n == if carry == 1 {
                n as int
            } else {
                0
            }) by (nonlinear_arith)
                requires
                    carry == 0 || carry == 1,
            ;
            rounded_is(m, n as int, exact);
            assert(rounded(self@, n as int) == if negative {
                -exact
            } else {
                exact
            });
            assert(0 <= exact <= i128::MAX);
            assert(qh >= 0) by {
                lemma_div_pos_is_pos(high as int, d as int);
            }
        }
        let q: i128 = qh * WORD + (ql + carry) as i128;
        if negative {
            -q
        } else {
            q
        }
    }
}

/// The product of `a` and `b`, as multiples of two to the power of 128 and the rest.
fn product(a: u128, b: u64) -> (r: (u128, u128))
    ensures
        r.0 * 0x1_0000_0000_0000_0000_0000_0000_0000_0000int + r.1 == a * b,
{
    let word: u128 = 18446744073709551616;
    let m: u128 = b as u128;
    let ah: u128 = a / word;
    let al: u128 = a % word;
    proof {
        lemma_fundamental_div_mod(a as int, word as int);
        assert(0 <= ah * m <= 18446744073709551615 * 18446744073709551615) by (nonlinear_arith)
            requires
                0 <= ah <= 18446744073709551615,
                0 <= m <= 18446744073709551615,
        ;
        assert(0 <= al * m <= 18446744073709551615 * 18446744073709551615) by (nonlinear_arith)
            requires
                0 <= al <= 18446744073709551615,
                0 <= m <= 18446744073709551615,
        ;
    }
    let high: u128 = ah * m;
    let low: u128 = al * m;
    let middle: u128 = high % word + low / word;
    let out: (u128, u128) = (
        high / word + middle / word,
        (middle % word) * word + low % word,
    );
    proof {
        lemma_fundamental_div_mod(high as int, word as int);
        lemma_fundamental_div_mod(low as int, word as int);
        lemma_fundamental_div_mod(middle as int, word as int);
        assert(a * b == high * word + low) by (nonlinear_arith)
            requires
                a == word * ah + al,
                b == m,
                high == ah * m,
                low == al * m,
        ;
    }
    out
}

/// The quotient of `hi * 2^128 + lo` and `d`, and what is left.
fn divided(hi: u128, lo: u128, d: u128) -> (r: (u128, u128))
    requires
        hi < d,
    ensures
        r.0 * d + r.1 == hi * 0x1_0000_0000_0000_0000_0000_0000_0000_0000int + lo,
        r.1 < d,
{
    let ghost all: int = hi * 0x1_0000_0000_0000_0000_0000_0000_0000_0000int + lo;
    let ghost mut places: int = 0x1_0000_0000_0000_0000_0000_0000_0000_0000int;
    let ghost mut found: int = 1;
    let mut half: u128 = 0x8000_0000_0000_0000_0000_0000_0000_0000;
    let mut q: u128 = 0;
    let mut r: u128 = hi;
    let mut rest: u128 = lo;
    let mut k: u32 = 0;
    proof {
        lemma2_to64();
        lemma_pow2_adds(64, 64);
        assert((0 * d + hi) * places == hi * places) by (nonlinear_arith);
    }
    while k < 128
        invariant
            k <= 128,
            r < d,
            0 <= rest < places,
            0 <= q < found,
            found >= 1,
            found * places == 0x1_0000_0000_0000_0000_0000_0000_0000_0000int,
            places == pow2((128 - k) as nat),
            k < 128 ==> places == 2 * half,
            (q * d + r) * places + rest == all,
        decreases 128 - k,
    {
        let one: bool = rest >= half;
        let bit: u128 = if one {
            1
        } else {
            0
        };
        let ghost rest0 = rest as int;
        let ghost (q0, r0) = (q as int, r as int);
        if one {
            rest = rest - half;
        }
        let gap: u128 = d - r - bit;
        let takes: bool = r >= gap;
        proof {
            lemma_pow2_unfold((128 - k) as nat);
            lemma_pow2_pos((127 - k) as nat);
            assert(places == 2 * pow2((127 - k) as nat));
            assert(half == pow2((127 - k) as nat));
            if k < 127 {
                lemma_pow2_unfold((127 - k) as nat);
            } else {
                lemma2_to64();
            }
            assert(2 * found <= 0x1_0000_0000_0000_0000_0000_0000_0000_0000int) by (nonlinear_arith)
                requires
                    found * places == 0x1_0000_0000_0000_0000_0000_0000_0000_0000int,
                    places >= 2,
                    found >= 1,
            ;
        }
        if takes {
            r = r - gap;
            q = 2 * q + 1;
        } else {
            r = 2 * r + bit;
            q = 2 * q;
        }
        proof {
            let h = half as int;
            assert(q * d + r == 2 * (q0 * d + r0) + bit) by (nonlinear_arith)
                requires
                    takes ==> q == 2 * q0 + 1 && r == r0 - (d - r0 - bit),
                    !takes ==> q == 2 * q0 && r == 2 * r0 + bit,
            ;
            assert((2 * (q0 * d + r0) + bit) * h == (q0 * d + r0) * (2 * h) + bit * h)
                by (nonlinear_arith);
            assert(bit * h == rest0 - rest) by (nonlinear_arith)
                requires
                    one ==> bit == 1 && rest == rest0 - h,
                    !one ==> bit == 0 && rest == rest0,
            ;
            assert((2 * found) * h == found * (2 * h)) by (nonlinear_arith);
            places = h;
            found = 2 * found;
        }
        half = half / 2;
        k = k + 1;
    }
    proof {
        lemma2_to64();
        assert((q * d + r) * 1 == q * d + r) by (nonlinear_arith);
    }
    (q, r)
}

/// The product of `a` and `b` over `d`, rounded to the nearest integer, halves away from
/// zero, as far as a 128-bit integer holds it.
pub fn scaled(a: i128, b: u64, d: u128) -> (r: i128)
    requires
        d > 0,
    ensures
        r == fitted(rounded(a * b, d as int)),
{
    let negative: bool = a < 0;
    let most: u128 = 170141183460469231731687303715884105728;
    let m: u128 = if !negative {
        a as u128
    } else if a == i128::MIN {
        most
    } else {
        (-a) as u128
    };
    let (hi, lo) = product(m, b);
    let ghost n: int = m * b;
    proof {
        assert(0 <= n) by (nonlinear_arith)
            requires
                n == m * b,
                m >= 0,
                b >= 0,
        ;
        assert(negative ==> a * b == -n) by (nonlinear_arith)
            requires
                n == m * b,
                negative ==> a == -m,
        ;
        rounded_of_negative(n, d as int);
    }
    if hi >= d {
        proof {
            rounded_is_large(n, d as int);
        }
        if negative {
            i128::MIN
        } else {
            i128::MAX
        }
    } else {
        let (q, r) = divided(hi, lo, d);
        let up: bool = r >= d - r;
        proof {
            let exact = if up {
                q + 1
            } else {
                q as int
            };
            assert(exact * d == q * d + if up {
                d as int
            } else {
                0
            }) by (nonlinear_arith)
                requires
                    exact == if up {
                        q + 1
                    } else {
                        q as int
                    },
            ;
            rounded_is(n, d as int, exact);
        }
        if q >= most || (up && q >= most - 1) {
            if negative {
                i128::MIN
            } else {
                i128::MAX
            }
        } else {
            let v: i128 = if up {
                q as i128 + 1
            } else {
                q as i128
            };
            if negative {
                -v
            } else {
                v
            }
        }
    }
}

proof fn rounded_of_negative(n: int, d: int)
    requires
        n >= 0,
        d > 0,
    ensures
        rounded(-n, d) == -rounded(n, d),
{
    if n == 0 {
        rounded_is(0, d, 0);
    }
}

proof fn rounded_is_large(n: int, d: int)
    requires
        d > 0,
        n >= d * 0x1_0000_0000_0000_0000_0000_0000_0000_0000int,
    ensures
        rounded(n, d) >= 0x1_0000_0000_0000_0000_0000_0000_0000_0000int,
{
    let k = 0x1_0000_0000_0000_0000_0000_0000_0000_0000int;
    assert((k * d) * d <= n * d) by (nonlinear_arith)
        requires
            d > 0,
            n >= d * k,
    ;
    rounded_is_monotone(k * d, d, n, d);
    rounded_multiple(k, d);
}

} // verus!
