//! The declared grid of every number the library writes.
//!
//! A measured quantity is an exact quotient of two integers ([`Real`]). Before it is
//! written it is rounded onto the grid its metric declares ([`Quantum`]), and what two
//! runs compare is the integer multiple of the grid, never an approximation of it.

use vstd::prelude::*;
use vstd::arithmetic::div_mod::*;
use vstd::arithmetic::mul::*;
use vstd::string::*;
use crate::text::{digit, numeral, push_digit, wide_decimal};

verus! {

/// The largest denominator a [`Real`] holds: two to the power of one hundred and six.
pub const MAX_DEN: u128 = 81129638414606681695789005144064;

/// The most points a grid has to the unit.
pub const MAX_PER_UNIT: u64 = 1_000_000;

/// How many billionths make one.
pub const NANO: u64 = 1_000_000_000;

/// The value of a [`Real`]: `num / den`.
pub ghost struct Quotient {
    pub num: int,
    pub den: int,
}

impl Quotient {
    /// True if the two quotients are the same number.
    pub open spec fn same_number(self, other: Quotient) -> bool {
        self.num * other.den == other.num * self.den
    }

    /// True if this number is not greater than `other`, both denominators being positive.
    pub open spec fn at_most(self, other: Quotient) -> bool {
        self.num * other.den <= other.num * self.den
    }
}

/// The quotient `num / den`.
pub open spec fn quotient(num: int, den: int) -> Quotient {
    Quotient { num, den }
}

/// An exact quotient of two integers with a positive denominator.
#[derive(Clone, Copy, Debug, PartialEq, Eq, Structural)]
pub struct Real {
    num: i128,
    den: u128,
}

impl View for Real {
    type V = Quotient;

    closed spec fn view(&self) -> Quotient {
        Quotient { num: self.num as int, den: self.den as int }
    }
}

/// The number `num / den`.
pub closed spec fn real_of(num: int, den: int) -> Real {
    Real { num: num as i128, den: den as u128 }
}

/// The number `num / den` has that numerator and that denominator.
pub broadcast proof fn real_of_is_the_quotient(num: int, den: int)
    requires
        i128::MIN <= num <= i128::MAX,
        0 < den <= MAX_DEN,
    ensures
        (#[trigger] real_of(num, den))@ == quotient(num, den),
{
}

impl Real {
    #[verifier::type_invariant]
    spec fn valid(self) -> bool {
        0 < self.den <= MAX_DEN
    }

    /// The quotient `num / den`.
    pub fn new(num: i128, den: u128) -> (r: Real)
        requires
            0 < den <= MAX_DEN,
        ensures
            r@ == quotient(num as int, den as int),
            r == real_of(num as int, den as int),
    {
        Real { num, den }
    }

    /// The whole number `n`.
    pub fn whole(n: i64) -> (r: Real)
        ensures
            r@ == quotient(n as int, 1),
            r == real_of(n as int, 1),
    {
        Real { num: n as i128, den: 1 }
    }

    /// True if this number is not greater than `other`.
    pub fn not_above(&self, other: &Real) -> (r: bool)
        ensures
            r == self@.at_most(other@),
    {
        proof {
            use_type_invariant(self);
            use_type_invariant(other);
        }
        if self.num < 0 && other.num >= 0 {
            assert(self.num * other.den <= other.num * self.den) by (nonlinear_arith)
                requires
                    self.num < 0,
                    other.num >= 0,
                    self.den > 0,
                    other.den > 0,
            ;
            true
        } else if self.num >= 0 && other.num < 0 {
            assert(self.num * other.den > other.num * self.den) by (nonlinear_arith)
                requires
                    self.num >= 0,
                    other.num < 0,
                    self.den > 0,
                    other.den > 0,
            ;
            false
        } else if self.num >= 0 {
            fraction_not_above(self.num as u128, self.den, other.num as u128, other.den)
        } else {
            let m: u128 = magnitude(self.num);
            let n: u128 = magnitude(other.num);
            assert(self.num * other.den <= other.num * self.den <==> n * self.den <= m * other.den)
                by (nonlinear_arith)
                requires
                    m == -self.num,
                    n == -other.num,
            ;
            fraction_not_above(n, other.den, m, self.den)
        }
    }

    /// The numerator.
    pub fn num(&self) -> (n: i128)
        ensures
            n == self@.num,
    {
        self.num
    }

    /// The denominator.
    pub fn den(&self) -> (d: u128)
        ensures
            d == self@.den,
            0 < d <= MAX_DEN,
    {
        proof {
            use_type_invariant(self);
        }
        self.den
    }
}

fn magnitude(n: i128) -> (m: u128)
    requires
        n < 0,
    ensures
        m == -n,
{
    if n == i128::MIN {
        170141183460469231731687303715884105728u128
    } else {
        (-n) as u128
    }
}

/// Compares `a / b` with `c / d`, by their whole parts and then by the reciprocals of what
/// is left.
fn fraction_not_above(a: u128, b: u128, c: u128, d: u128) -> (r: bool)
    requires
        b > 0,
        d > 0,
    ensures
        r == (a * d <= c * b),
    decreases b + d,
{
    let p: u128 = a / b;
    let q: u128 = c / d;
    let x: u128 = a % b;
    let y: u128 = c % d;
    proof {
        lemma_fundamental_div_mod(a as int, b as int);
        lemma_fundamental_div_mod(c as int, d as int);
        assert(a * d == (p * b) * d + x * d) by (nonlinear_arith)
            requires
                a == b * p + x,
        ;
        assert(c * b == (q * b) * d + y * b) by (nonlinear_arith)
            requires
                c == d * q + y,
        ;
    }
    if p != q {
        proof {
            if p < q {
                assert((p * b) * d + x * d <= (q * b) * d + y * b) by (nonlinear_arith)
                    requires
                        p + 1 <= q,
                        0 <= x < b,
                        0 <= y,
                        b > 0,
                        d > 0,
                ;
            } else {
                assert((p * b) * d + x * d > (q * b) * d + y * b) by (nonlinear_arith)
                    requires
                        q + 1 <= p,
                        0 <= x,
                        0 <= y < d,
                        b > 0,
                        d > 0,
                ;
            }
        }
        p < q
    } else if x == 0 {
        assert(x * d <= y * b) by (nonlinear_arith)
            requires
                x == 0,
                y >= 0,
                b > 0,
        ;
        true
    } else if y == 0 {
        assert(x * d > y * b) by (nonlinear_arith)
            requires
                x > 0,
                y == 0,
                d > 0,
        ;
        false
    } else {
        assert(d * x == x * d && b * y == y * b) by (nonlinear_arith);
        fraction_not_above(d, y, b, x)
    }
}

/// Ten to the power of `k`.
pub open spec fn ten_to(k: nat) -> int
    decreases k,
{
    if k == 0 {
        1
    } else {
        10 * ten_to((k - 1) as nat)
    }
}

/// The digits behind the decimal point of `part / ten_to(k)`, without trailing zeros.
pub open spec fn fraction_digits(part: int, k: nat) -> Seq<char>
    decreases k,
{
    if k == 0 || part == 0 {
        Seq::empty()
    } else {
        let unit = ten_to((k - 1) as nat);
        seq![digit((part / unit) as nat)] + fraction_digits(part % unit, (k - 1) as nat)
    }
}

/// How many decimal places a denominator stands for: one to a million are powers of ten.
pub open spec fn decimal_places(den: int) -> Option<nat> {
    if den == 1 {
        Some(0)
    } else if den == 10 {
        Some(1)
    } else if den == 100 {
        Some(2)
    } else if den == 1_000 {
        Some(3)
    } else if den == 10_000 {
        Some(4)
    } else if den == 100_000 {
        Some(5)
    } else if den == 1_000_000 {
        Some(6)
    } else {
        None
    }
}

/// A number as text: in decimal where its denominator is a power of ten up to a million,
/// as a fraction otherwise.
pub open spec fn number_text(q: Quotient) -> Seq<char> {
    let sign = if q.num < 0 {
        "-"@
    } else {
        Seq::empty()
    };
    let m = if q.num < 0 {
        -q.num
    } else {
        q.num
    };
    match decimal_places(q.den) {
        Some(k) => if m % q.den == 0 {
            sign + numeral((m / q.den) as nat)
        } else {
            sign + numeral((m / q.den) as nat) + "."@ + fraction_digits(m % q.den, k)
        },
        None => sign + numeral(m as nat) + "/"@ + numeral(q.den as nat),
    }
}

impl Real {
    /// The number as text.
    pub fn to_text(&self) -> (r: String)
        ensures
            r@ == number_text(self@),
    {
        proof {
            use_type_invariant(self);
            assert(ten_to(6) == 1_000_000) by {
                reveal_with_fuel(ten_to, 7);
            }
        }
        let negative: bool = self.num < 0;
        let m: u128 = if !negative {
            self.num as u128
        } else if self.num == i128::MIN {
            170141183460469231731687303715884105728u128
        } else {
            (-self.num) as u128
        };
        let mut out = if negative {
            "-".to_owned()
        } else {
            String::new()
        };
        let ghost sign = out@;
        let den: u128 = self.den;
        if den == 1 || den == 10 || den == 100 || den == 1_000 || den == 10_000 || den == 100_000
            || den == 1_000_000 {
            out.append(wide_decimal(m / den).as_str());
            if m % den != 0 {
                out.append(".");
                let ghost k0 = decimal_places(den as int)->Some_0;
                let ghost head = out@;
                let mut part: u128 = m % den;
                let mut unit: u128 = den;
                let mut k: Ghost<nat> = Ghost(k0);
                proof {
                    reveal_with_fuel(ten_to, 7);
                    assert(head + fraction_digits(part as int, k0) == out@ + fraction_digits(
                        part as int,
                        k@,
                    ));
                }
                while part != 0
                    invariant
                        unit == ten_to(k@),
                        k@ <= 6,
                        part < unit,
                        unit <= 1_000_000,
                        out@ + fraction_digits(part as int, k@) == head + fraction_digits(
                            (m % den) as int,
                            k0,
                        ),
                    decreases part, unit,
                {
                    let ghost before = out@;
                    let next: u128 = unit / 10;
                    proof {
                        assert(k@ > 0) by {
                            if k@ == 0 {
                                assert(ten_to(0) == 1);
                            }
                        }
                        assert(unit == 10 * ten_to((k@ - 1) as nat));
                        assert(next == ten_to((k@ - 1) as nat));
                        assert(next > 0) by {
                            reveal_with_fuel(ten_to, 7);
                        }
                        assert(part / next < 10) by (nonlinear_arith)
                            requires
                                part < 10 * next,
                                next > 0,
                        ;
                        lemma_mod_bound(part as int, next as int);
                    }
                    push_digit(&mut out, (part / next) as u64);
                    proof {
                        let d = digit(((part / next) as u64) as nat);
                        let rest = fraction_digits((part % next) as int, (k@ - 1) as nat);
                        assert(fraction_digits(part as int, k@) == seq![d] + rest);
                        assert(before.push(d) + rest =~= before + (seq![d] + rest));
                        lemma_mod_decreases(part as nat, next as nat);
                    }
                    part = part % next;
                    unit = next;
                    proof {
                        k@ = (k@ - 1) as nat;
                    }
                }
                proof {
                    assert(fraction_digits(0, k@) =~= Seq::<char>::empty());
                    assert(out@ + Seq::<char>::empty() =~= out@);
                }
            }
            out
        } else {
            out.append(wide_decimal(m).as_str());
            out.append("/");
            out.append(wide_decimal(den).as_str());
            out
        }
    }
}

/// `a / b` rounded to the nearest integer, halves away from zero; `b` is positive.
pub open spec fn rounded(a: int, b: int) -> int {
    if a >= 0 {
        (2 * a + b) / (2 * b)
    } else {
        -((2 * (-a) + b) / (2 * b))
    }
}

/// The nearest value that a 64-bit integer can hold.
pub open spec fn clamped(v: int) -> int {
    if v > i64::MAX {
        i64::MAX as int
    } else if v < i64::MIN {
        i64::MIN as int
    } else {
        v
    }
}

/// The nearest value that a 128-bit integer can hold.
pub open spec fn fitted(v: int) -> int {
    if v > i128::MAX {
        i128::MAX as int
    } else if v < i128::MIN {
        i128::MIN as int
    } else {
        v
    }
}

/// Rounding is off by at most one half.
pub proof fn rounded_is_nearest(a: int, b: int)
    requires
        b > 0,
    ensures
        -b <= 2 * (rounded(a, b) * b - a) <= b,
{
    let m = if a >= 0 { a } else { -a };
    let q = (2 * m + b) / (2 * b);
    let r = (2 * m + b) % (2 * b);
    lemma_fundamental_div_mod(2 * m + b, 2 * b);
    assert(2 * m + b == 2 * (q * b) + r) by (nonlinear_arith)
        requires
            2 * m + b == (2 * b) * q + r,
    ;
    lemma_mod_bound(2 * m + b, 2 * b);
    assert((-q) * b == -(q * b)) by (nonlinear_arith);
}

/// The integer within half a unit of `a / b`, halves away from zero, is the rounded value.
pub proof fn rounded_is(a: int, b: int, q: int)
    requires
        b > 0,
        a >= 0,
        2 * (q * b) <= 2 * a + b,
        2 * a + b < 2 * (q * b) + 2 * b,
    ensures
        rounded(a, b) == q,
{
    let r = 2 * a + b - 2 * (q * b);
    assert(2 * a + b == q * (2 * b) + r) by (nonlinear_arith)
        requires
            r == 2 * a + b - 2 * (q * b),
    ;
    lemma_fundamental_div_mod_converse(2 * a + b, 2 * b, q, r);
}

/// A whole number of units is its own rounding.
pub proof fn rounded_multiple(q: int, b: int)
    requires
        b > 0,
    ensures
        rounded(q * b, b) == q,
{
    if q >= 0 {
        assert(q * b >= 0) by (nonlinear_arith)
            requires
                q >= 0,
                b > 0,
        ;
        rounded_is(q * b, b, q);
    } else {
        let p = -q;
        assert(p * b == -(q * b)) by (nonlinear_arith)
            requires
                p == -q,
        ;
        assert(p * b > 0) by (nonlinear_arith)
            requires
                p > 0,
                b > 0,
        ;
        rounded_is(p * b, b, p);
    }
}

/// Rounding keeps the order: of two quotients over positive denominators, the smaller
/// rounds to no more than the larger.
pub proof fn rounded_is_monotone(a: int, b: int, c: int, d: int)
    requires
        b > 0,
        d > 0,
        a * d <= c * b,
    ensures
        rounded(a, b) <= rounded(c, d),
{
    if a >= 0 {
        assert(c >= 0) by (nonlinear_arith)
            requires
                a >= 0,
                b > 0,
                d > 0,
                a * d <= c * b,
        ;
        halves_are_monotone(a, b, c, d);
    } else if c < 0 {
        assert((-c) * b <= (-a) * d) by (nonlinear_arith)
            requires
                a * d <= c * b,
        ;
        halves_are_monotone(-c, d, -a, b);
    } else {
        lemma_div_nonneg(2 * (-a) + b, 2 * b);
        lemma_div_nonneg(2 * c + d, 2 * d);
    }
}

proof fn lemma_div_nonneg(x: int, y: int)
    requires
        x >= 0,
        y > 0,
    ensures
        x / y >= 0,
{
    lemma_div_pos_is_pos(x, y);
}

proof fn halves_are_monotone(a: int, b: int, c: int, d: int)
    requires
        b > 0,
        d > 0,
        a >= 0,
        c >= 0,
        a * d <= c * b,
    ensures
        (2 * a + b) / (2 * b) <= (2 * c + d) / (2 * d),
{
    let p = (2 * a + b) / (2 * b);
    let q = (2 * c + d) / (2 * d);
    lemma_fundamental_div_mod(2 * a + b, 2 * b);
    lemma_mod_bound(2 * a + b, 2 * b);
    lemma_fundamental_div_mod(2 * c + d, 2 * d);
    lemma_mod_bound(2 * c + d, 2 * d);
    assert((2 * b) * p <= 2 * a + b);
    assert(2 * c + d < (2 * d) * q + 2 * d);
    if p > q {
        assert((2 * b) * p * d <= (2 * a + b) * d) by (nonlinear_arith)
            requires
                (2 * b) * p <= 2 * a + b,
                d > 0,
        ;
        assert((2 * c + d) * b < ((2 * d) * q + 2 * d) * b) by (nonlinear_arith)
            requires
                2 * c + d < (2 * d) * q + 2 * d,
                b > 0,
        ;
        assert((2 * a + b) * d <= (2 * c + d) * b) by (nonlinear_arith)
            requires
                a * d <= c * b,
        ;
        assert(((2 * d) * q + 2 * d) * b <= (2 * b) * p * d) by (nonlinear_arith)
            requires
                p >= q + 1,
                b > 0,
                d > 0,
        ;
    }
}

/// The grid a quantity is written on: multiples of one over `per_unit`.
#[derive(Clone, Copy, Debug, PartialEq, Eq, Structural)]
pub struct Quantum {
    per_unit: u64,
}

impl View for Quantum {
    type V = int;

    closed spec fn view(&self) -> int {
        self.per_unit as int
    }
}

/// The multiple of the grid of `per_unit` points per unit that `x` rounds to, as far as a
/// number holds it.
pub open spec fn index_of(x: Quotient, per_unit: int) -> int {
    fitted(rounded(x.num * per_unit, x.den))
}

/// The multiple of the grid of `per_unit` points per unit that `x` rounds to, as a 64-bit
/// integer.
pub open spec fn grid_of(x: Quotient, per_unit: int) -> int {
    clamped(rounded(x.num * per_unit, x.den))
}

/// `x` rounded onto the grid of `per_unit` points per unit.
pub open spec fn quantised_to(x: Quotient, per_unit: int) -> Quotient {
    quotient(index_of(x, per_unit), per_unit)
}

/// The number that `x` is rounded to on the grid of `per_unit` points per unit.
pub open spec fn quantised_real(x: Real, per_unit: int) -> Real {
    real_of(index_of(x@, per_unit), per_unit)
}

/// True if `x` is a multiple of one over `per_unit`.
pub open spec fn on_grid(x: Quotient, per_unit: int) -> bool {
    (x.num * per_unit) % x.den == 0
}

impl Quantum {
    #[verifier::type_invariant]
    spec fn valid(self) -> bool {
        0 < self.per_unit <= MAX_PER_UNIT
    }

    /// The grid with `per_unit` points to the unit.
    pub fn new(per_unit: u64) -> (q: Quantum)
        requires
            0 < per_unit <= MAX_PER_UNIT,
        ensures
            q@ == per_unit,
    {
        Quantum { per_unit }
    }

    /// The points of this grid in one unit.
    pub fn per_unit(self) -> (n: u64)
        ensures
            n == self@,
            0 < n <= MAX_PER_UNIT,
    {
        proof {
            use_type_invariant(&self);
        }
        self.per_unit
    }

    /// The distance between two points of this grid.
    pub fn get(self) -> (r: Real)
        ensures
            r@ == quotient(1, self@),
            r == real_of(1, self@),
    {
        proof {
            use_type_invariant(&self);
        }
        Real::new(1, self.per_unit as u128)
    }

    /// The integer multiple of this grid that `x` rounds to, as a 64-bit integer.
    pub fn grid(self, x: Real) -> (g: i64)
        ensures
            g == grid_of(x@, self@),
    {
        let g: i128 = self.index(x);
        if g > i64::MAX as i128 {
            i64::MAX
        } else if g < i64::MIN as i128 {
            i64::MIN
        } else {
            g as i64
        }
    }

    /// The integer multiple of this grid that `x` rounds to.
    pub fn index(self, x: Real) -> (g: i128)
        ensures
            g == index_of(x@, self@),
    {
        proof {
            use_type_invariant(&self);
            use_type_invariant(&x);
        }
        let up: u128 = self.per_unit as u128;
        let den: u128 = x.den;
        let negative: bool = x.num < 0;
        let m: u128 = if !negative {
            x.num as u128
        } else if x.num == i128::MIN {
            170141183460469231731687303715884105728u128
        } else {
            (-x.num) as u128
        };
        let w: u128 = m / den;
        let r: u128 = m % den;
        proof {
            lemma_fundamental_div_mod(m as int, den as int);
            assert(r * up < den * up) by (nonlinear_arith)
                requires
                    r < den,
                    up > 0,
            ;
            assert(den * up <= 81129638414606681695789005144064 * 1000000) by (nonlinear_arith)
                requires
                    0 < den <= 81129638414606681695789005144064,
                    0 < up <= 1000000,
            ;
            assert(0 <= r * up) by (nonlinear_arith)
                requires
                    r >= 0,
                    up > 0,
            ;
        }
        let scaled: u128 = r * up;
        let part: u128 = scaled / den;
        let left: u128 = scaled % den;
        let carry: u128 = if left >= den - left {
            1
        } else {
            0
        };
        proof {
            lemma_fundamental_div_mod(scaled as int, den as int);
            assert(part < up) by (nonlinear_arith)
                requires
                    scaled < den * up,
                    scaled == den * part + left,
                    left >= 0,
                    den > 0,
            ;
            let exact = w * up + part + carry;
            assert(m * up == (w * up + part) * den + left) by (nonlinear_arith)
                requires
                    m == den * w + r,
                    r * up == den * part + left,
            ;
            assert((w * up + part + carry) * den == (w * up + part) * den + carry * den)
                by (nonlinear_arith);
            assert(0 <= m * up) by (nonlinear_arith)
                requires
                    m >= 0,
                    up > 0,
            ;
            assert(carry * den == if carry == 1 { den as int } else { 0 }) by (nonlinear_arith)
                requires
                    carry == 0 || carry == 1,
            ;
            rounded_is(m * up, den as int, exact);
            if negative {
                assert(x.num * up == -(m * up)) by (nonlinear_arith)
                    requires
                        x.num == -m,
                ;
                assert(m * up > 0) by (nonlinear_arith)
                    requires
                        m > 0,
                        up > 0,
                ;
            }
            assert(rounded(x.num * up, den as int) == if negative {
                -exact
            } else {
                exact
            });
        }
        let most: u128 = 170141183460469231731687303715884105728;
        let cap: u128 = most / up;
        proof {
            lemma_fundamental_div_mod(most as int, up as int);
            lemma_mod_bound(most as int, up as int);
        }
        if w > cap {
            proof {
                assert(w * up >= up * cap + up) by (nonlinear_arith)
                    requires
                        w >= cap + 1,
                        up > 0,
                ;
            }
            if negative {
                i128::MIN
            } else {
                i128::MAX
            }
        } else {
            proof {
                assert(0 <= w * up <= up * cap) by (nonlinear_arith)
                    requires
                        0 <= w <= cap,
                        up > 0,
                ;
            }
            let g: u128 = w * up + part + carry;
            if g >= most {
                if negative {
                    i128::MIN
                } else {
                    i128::MAX
                }
            } else if negative {
                -(g as i128)
            } else {
                g as i128
            }
        }
    }

    /// `x` rounded onto this grid.
    pub fn quantise(self, x: Real) -> (r: Real)
        ensures
            r@ == quantised_to(x@, self@),
            r == quantised_real(x, self@),
    {
        proof {
            use_type_invariant(&self);
        }
        Real::new(self.index(x), self.per_unit as u128)
    }

    /// True if `x` already stands on this grid.
    pub fn holds(self, x: Real) -> (r: bool)
        ensures
            r == on_grid(x@, self@),
    {
        proof {
            use_type_invariant(&self);
            use_type_invariant(&x);
        }
        let up: u128 = self.per_unit as u128;
        let den: u128 = x.den;
        let m: u128 = if x.num >= 0 {
            x.num as u128
        } else if x.num == i128::MIN {
            170141183460469231731687303715884105728u128
        } else {
            (-x.num) as u128
        };
        let r: u128 = m % den;
        proof {
            assert(r * up < den * up) by (nonlinear_arith)
                requires
                    r < den,
                    up > 0,
            ;
            assert(den * up <= 81129638414606681695789005144064 * 1000000) by (nonlinear_arith)
                requires
                    0 < den <= 81129638414606681695789005144064,
                    0 < up <= 1000000,
            ;
            assert(0 <= r * up) by (nonlinear_arith)
                requires
                    r >= 0,
                    up > 0,
            ;
            lemma_mul_mod_noop_left(m as int, up as int, den as int);
            if x.num < 0 {
                assert((-m) * up == -(m * up)) by (nonlinear_arith);
                negated_remainder(m * up, den as int);
            }
        }
        (r * up) % den == 0
    }

    /// Lengths, in metres: one millimetre.
    pub fn length_m() -> (q: Quantum)
        ensures
            q@ == 1_000,
    {
        Quantum { per_unit: 1_000 }
    }

    /// Durations, in seconds: one millisecond.
    pub fn time_s() -> (q: Quantum)
        ensures
            q@ == 1_000,
    {
        Quantum { per_unit: 1_000 }
    }

    /// Durations, in milliseconds: one microsecond.
    pub fn time_ms() -> (q: Quantum)
        ensures
            q@ == 1_000,
    {
        Quantum { per_unit: 1_000 }
    }

    /// Decibels: one hundredth.
    pub fn db() -> (q: Quantum)
        ensures
            q@ == 100,
    {
        Quantum { per_unit: 100 }
    }

    /// Ratios and shares: one ten-thousandth.
    pub fn ratio() -> (q: Quantum)
        ensures
            q@ == 10_000,
    {
        Quantum { per_unit: 10_000 }
    }

    /// Probabilities, the bounds of an interval among them: one millionth.
    pub fn probability() -> (q: Quantum)
        ensures
            q@ == 1_000_000,
    {
        Quantum { per_unit: 1_000_000 }
    }

    /// Bytes and byte rates: one thousandth.
    pub fn bytes() -> (q: Quantum)
        ensures
            q@ == 1_000,
    {
        Quantum { per_unit: 1_000 }
    }

    /// Speeds and accelerations: one thousandth.
    pub fn speed() -> (q: Quantum)
        ensures
            q@ == 1_000,
    {
        Quantum { per_unit: 1_000 }
    }

    /// Flow and density: one thousandth.
    pub fn traffic() -> (q: Quantum)
        ensures
            q@ == 1_000,
    {
        Quantum { per_unit: 1_000 }
    }

    /// Counts and counts per second: one thousandth.
    pub fn count() -> (q: Quantum)
        ensures
            q@ == 1_000,
    {
        Quantum { per_unit: 1_000 }
    }

    /// The two sums of a ratio of sums: one thousandth.
    pub fn sum() -> (q: Quantum)
        ensures
            q@ == 1_000,
    {
        Quantum { per_unit: 1_000 }
    }
}

proof fn negated_remainder(a: int, b: int)
    requires
        b > 0,
    ensures
        ((-a) % b == 0) == (a % b == 0),
{
    lemma_fundamental_div_mod(a, b);
    lemma_fundamental_div_mod(-a, b);
    let q = a / b;
    let p = (-a) / b;
    assert(b * (-q) == -(b * q)) by (nonlinear_arith);
    assert(b * (-p) == -(b * p)) by (nonlinear_arith);
    if a % b == 0 {
        lemma_fundamental_div_mod_converse(-a, b, -q, 0);
    }
    if (-a) % b == 0 {
        lemma_fundamental_div_mod_converse(a, b, -p, 0);
    }
}

/// `x` rounded onto the grid `q`.
pub fn quantise(x: Real, q: Quantum) -> (r: Real)
    ensures
        r@ == quantised_to(x@, q@),
        r == quantised_real(x, q@),
{
    q.quantise(x)
}

/// The integer multiple of `q` that `x` rounds to.
pub fn grid(x: Real, q: Quantum) -> (g: i64)
    ensures
        g == grid_of(x@, q@),
{
    q.grid(x)
}

/// A rounded value stands on its grid, and rounding it again changes nothing.
pub proof fn quantising_is_idempotent(x: Quotient, per_unit: int)
    requires
        per_unit > 0,
    ensures
        on_grid(quantised_to(x, per_unit), per_unit),
        quantised_to(quantised_to(x, per_unit), per_unit) == quantised_to(x, per_unit),
{
    let g = index_of(x, per_unit);
    rounded_multiple(g, per_unit);
    lemma_mod_multiples_basic(g, per_unit);
}

/// A value already on the grid is left where it is, as far as a number holds it.
pub proof fn quantising_keeps_grid_values(x: Quotient, per_unit: int)
    requires
        per_unit > 0,
        x.den > 0,
        on_grid(x, per_unit),
        i128::MIN <= (x.num * per_unit) / x.den <= i128::MAX,
    ensures
        quantised_to(x, per_unit).same_number(x),
{
    let a = x.num * per_unit;
    lemma_fundamental_div_mod(a, x.den);
    let q = a / x.den;
    assert(a == q * x.den) by (nonlinear_arith)
        requires
            a == x.den * q + 0,
    ;
    rounded_multiple(q, x.den);
}

/// A value is rounded no further than half a step away, as far as a number holds it.
pub proof fn quantising_is_nearest(x: Quotient, per_unit: int)
    requires
        per_unit > 0,
        x.den > 0,
        i128::MIN <= rounded(x.num * per_unit, x.den) <= i128::MAX,
    ensures
        -x.den <= 2 * (quantised_to(x, per_unit).num * x.den - x.num * per_unit) <= x.den,
{
    rounded_is_nearest(x.num * per_unit, x.den);
}

/// A half is rounded away from zero, on both sides of it alike.
pub proof fn halves_are_rounded_away(q: int, b: int)
    requires
        b > 0,
        q >= 0,
    ensures
        rounded(b * (2 * q + 1), 2 * b) == q + 1,
        rounded(-(b * (2 * q + 1)), 2 * b) == -(q + 1),
{
    let a = b * (2 * q + 1);
    assert(2 * ((q + 1) * (2 * b)) == 2 * a + 2 * b) by (nonlinear_arith)
        requires
            a == b * (2 * q + 1),
    ;
    assert(a > 0) by (nonlinear_arith)
        requires
            a == b * (2 * q + 1),
            b > 0,
            q >= 0,
    ;
    rounded_is(a, 2 * b, q + 1);
}

/// Rounding onto a grid keeps the order of two values.
pub proof fn grid_is_monotone(x: Quotient, y: Quotient, per_unit: int)
    requires
        per_unit > 0,
        x.den > 0,
        y.den > 0,
        x.at_most(y),
    ensures
        grid_of(x, per_unit) <= grid_of(y, per_unit),
{
    assert((x.num * per_unit) * y.den <= (y.num * per_unit) * x.den) by (nonlinear_arith)
        requires
            x.num * y.den <= y.num * x.den,
            per_unit > 0,
    ;
    rounded_is_monotone(x.num * per_unit, x.den, y.num * per_unit, y.den);
}

/// A value is rounded to a multiple of the grid no further than half a step away, unless
/// it is too large for the grid.
pub proof fn grid_is_nearest(x: Quotient, per_unit: int)
    requires
        per_unit > 0,
        x.den > 0,
        i64::MIN <= rounded(x.num * per_unit, x.den) <= i64::MAX,
    ensures
        -x.den <= 2 * (grid_of(x, per_unit) * x.den - x.num * per_unit) <= x.den,
{
    rounded_is_nearest(x.num * per_unit, x.den);
}

} // verus!
