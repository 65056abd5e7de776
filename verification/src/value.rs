//! Exact numeric values for the calculator.
//!
//! The running total and every decoded operand are exact rationals held in
//! sign-magnitude form: a sign, a numerator magnitude and a positive
//! denominator, kept reduced to lowest terms. Every operation states its
//! result both as the exact reduced representative and as a ratio equation.

use vstd::prelude::*;

verus! {

/// Greatest common divisor by Euclid's rule.
pub open spec fn spec_gcd(a: nat, b: nat) -> nat
    decreases b,
{
    if b == 0 {
        a
    } else {
        spec_gcd(b, a % b)
    }
}

/// The gcd of two numbers divides both of them.
pub proof fn lemma_gcd_divides_both(a: nat, b: nat)
    ensures
        spec_gcd(a, b) == 0 || a % spec_gcd(a, b) == 0,
        spec_gcd(a, b) == 0 || b % spec_gcd(a, b) == 0,
    decreases b,
{
    if b == 0 {
        let g = spec_gcd(a, b);
        assert(g == a);
        if g != 0 {
            assert(a % g == 0) by {
                vstd::arithmetic::div_mod::lemma_mod_self_0(g as int);
            };
            assert(b % g == 0) by {
                vstd::arithmetic::div_mod::lemma_small_mod(0nat, g);
            };
        }
    } else {
        let r = a % b;
        assert(0 <= r < b) by {
            vstd::arithmetic::div_mod::lemma_mod_bound(a as int, b as int);
        };
        lemma_gcd_divides_both(b, r);
        let g = spec_gcd(b, r);
        assert(spec_gcd(a, b) == g);
        if g != 0 {
            // a == (a / b) * b + r, and g divides both b and r, so g divides a.
            vstd::arithmetic::div_mod::lemma_fundamental_div_mod(a as int, b as int);
            let q = a as int / b as int;
            lemma_divides_linear(b as int, r as int, q, g as int);
        }
    }
}

/// If d divides x and y, it divides q*x + y.
proof fn lemma_divides_linear(x: int, y: int, q: int, d: int)
    requires
        d > 0,
        x % d == 0,
        y % d == 0,
    ensures
        (q * x + y) % d == 0,
{
    vstd::arithmetic::div_mod::lemma_fundamental_div_mod(x, d);
    vstd::arithmetic::div_mod::lemma_fundamental_div_mod(y, d);
    let a = x / d;
    let b = y / d;
    assert(q * x + y == (q * a + b) * d) by (nonlinear_arith)
        requires
            x == d * a,
            y == d * b,
    ;
    assert((q * a + b) * d % d == 0) by {
        vstd::arithmetic::div_mod::lemma_mod_multiples_basic(q * a + b, d);
    };
}

/// The gcd is positive as soon as either argument is.
pub proof fn lemma_gcd_positive(a: nat, b: nat)
    ensures
        spec_gcd(a, b) > 0 || (a == 0 && b == 0),
    decreases b,
{
    if b == 0 {
    } else {
        assert(0 <= a % b < b) by {
            vstd::arithmetic::div_mod::lemma_mod_bound(a as int, b as int);
        };
        lemma_gcd_positive(b, a % b);
    }
}

/// Any common divisor of a and b divides their gcd.
pub proof fn lemma_common_divisor_divides_gcd(a: nat, b: nat, d: nat)
    requires
        d > 0,
        a % d == 0,
        b % d == 0,
    ensures
        spec_gcd(a, b) % d == 0,
    decreases b,
{
    if b == 0 {
        assert(spec_gcd(a, b) == a);
    } else {
        let r = a % b;
        assert(0 <= r < b) by {
            vstd::arithmetic::div_mod::lemma_mod_bound(a as int, b as int);
        };
        // r == a - (a / b) * b, and d divides a and b, so d divides r.
        vstd::arithmetic::div_mod::lemma_fundamental_div_mod(a as int, b as int);
        let q = a as int / b as int;
        assert(r as int == (-q) * (b as int) + a as int) by (nonlinear_arith)
            requires
                a as int == q * (b as int) + r as int,
        ;
        lemma_divides_linear(b as int, a as int, -q, d as int);
        assert(r % d == 0);
        lemma_common_divisor_divides_gcd(b, r, d);
    }
}

/// An exact rational number in sign-magnitude form, kept in lowest terms.
///
/// `num` is the magnitude of the numerator, `den` the (positive) denominator;
/// `neg` marks a strictly negative value. Zero is always `(false, 0, 1)`.
#[derive(Clone, Copy, Debug, PartialEq, Eq, Structural)]
pub struct CalcValue {
    pub neg: bool,
    pub num: u128,
    pub den: u128,
}

impl CalcValue {
    /// Lowest terms, positive denominator, canonical zero.
    pub open spec fn wf(self) -> bool {
        &&& self.den >= 1
        &&& spec_gcd(self.num as nat, self.den as nat) == 1
        &&& (self.num == 0 ==> !self.neg && self.den == 1)
    }

    /// The numerator of the exact value, as a signed integer.
    pub open spec fn ratio_num(self) -> int {
        if self.neg {
            -(self.num as int)
        } else {
            self.num as int
        }
    }

    /// The denominator of the exact value.
    pub open spec fn ratio_den(self) -> int {
        self.den as int
    }

    /// The value is exactly zero.
    pub open spec fn spec_is_zero(self) -> bool {
        self.num == 0
    }

    /// Whether the value is exactly zero.
    pub fn is_zero(&self) -> (r: bool)
        ensures
            r == self.spec_is_zero(),
    {
        self.num == 0
    }
}

/// Two numerator/denominator pairs stand for the same rational.
pub open spec fn same_ratio(n1: int, d1: int, n2: int, d2: int) -> bool {
    n1 * d2 == n2 * d1
}

/// The reduced representative of the fraction `num / den`, with `neg` giving
/// the sign: both components divided by their gcd, zero made canonical.
pub open spec fn spec_reduce(neg: bool, num: nat, den: nat) -> CalcValue {
    if num == 0 {
        CalcValue { neg: false, num: 0, den: 1 }
    } else {
        let g = spec_gcd(num, den);
        CalcValue { neg, num: (num / g) as u128, den: (den / g) as u128 }
    }
}

/// Reducing a fraction yields a well-formed value with the same ratio.
pub proof fn lemma_reduce_props(neg: bool, num: nat, den: nat)
    requires
        num <= u128::MAX,
        1 <= den <= u128::MAX,
    ensures
        spec_reduce(neg, num, den).wf(),
        same_ratio(
            spec_reduce(neg, num, den).ratio_num(),
            spec_reduce(neg, num, den).ratio_den(),
            if neg { -(num as int) } else { num as int },
            den as int,
        ),
{
    if num == 0 {
        let v = spec_reduce(neg, num, den);
        assert(v.num == 0 && v.den == 1 && !v.neg);
        assert(v.ratio_num() == 0);
        assert(0 * (den as int) == 0);
        assert((if neg { -(num as int) } else { num as int }) == 0);
        assert(0 * v.ratio_den() == 0);
        assert(spec_gcd(0, 1) == 1) by {
            assert(spec_gcd(0nat, 1nat) == spec_gcd(1nat, 0nat % 1nat));
            assert(0nat % 1nat == 0);
            assert(spec_gcd(1nat, 0nat) == 1);
        };
    } else {
        let g = spec_gcd(num, den);
        lemma_gcd_positive(num, den);
        lemma_gcd_divides_both(num, den);
        assert(g >= 1);
        vstd::arithmetic::div_mod::lemma_fundamental_div_mod(num as int, g as int);
        vstd::arithmetic::div_mod::lemma_fundamental_div_mod(den as int, g as int);
        let p = num / g;
        let q = den / g;
        assert(num == g * p && den == g * q);
        assert(p >= 1) by {
            assert(g * 0 == 0) by (nonlinear_arith);
        };
        assert(q >= 1) by {
            assert(g * 0 == 0) by (nonlinear_arith);
        };
        assert(p <= num && q <= den) by (nonlinear_arith)
            requires
                num == g * p,
                den == g * q,
                g >= 1,
                p >= 0,
                q >= 0,
        ;
        // Lowest terms: any common divisor of p and q scaled by g would
        // divide both num and den, hence their gcd g.
        let h = spec_gcd(p, q);
        lemma_gcd_positive(p, q);
        lemma_gcd_divides_both(p, q);
        assert(h >= 1);
        vstd::arithmetic::div_mod::lemma_fundamental_div_mod(p as int, h as int);
        vstd::arithmetic::div_mod::lemma_fundamental_div_mod(q as int, h as int);
        let p2 = p / h;
        let q2 = q / h;
        assert(num == (g * h) * p2 && den == (g * h) * q2) by (nonlinear_arith)
            requires
                num == g * p,
                den == g * q,
                p == h * p2,
                q == h * q2,
        ;
        assert(num % (g * h) == 0 && den % (g * h) == 0 && g * h >= 1) by {
            assert(g * h >= 1) by (nonlinear_arith)
                requires
                    g >= 1,
                    h >= 1,
            ;
            vstd::arithmetic::div_mod::lemma_mod_multiples_basic(p2 as int, (g * h) as int);
            vstd::arithmetic::div_mod::lemma_mod_multiples_basic(q2 as int, (g * h) as int);
            assert(p2 * (g * h) == (g * h) * p2) by (nonlinear_arith);
            assert(q2 * (g * h) == (g * h) * q2) by (nonlinear_arith);
        };
        lemma_common_divisor_divides_gcd(num, den, (g * h) as nat);
        assert(g % (g * h) == 0);
        if h > 1 {
            assert(g * h > g) by (nonlinear_arith)
                requires
                    g >= 1,
                    h > 1,
            ;
            assert(g >= g * h) by {
                vstd::arithmetic::div_mod::lemma_mod_is_zero(g, (g * h) as nat);
            };
            assert(false);
        }
        assert(h == 1);
        // Same ratio: (num/g) * den == num * (den/g).
        assert(p * (den as int) == (num as int) * q) by (nonlinear_arith)
            requires
                num == g * p,
                den == g * q,
        ;
        if neg {
            assert((-(p as int)) * (den as int) == (-(num as int)) * (q as int)) by (nonlinear_arith)
                requires
                    p * (den as int) == (num as int) * q,
            ;
        }
    }
}

impl CalcValue {
    /// The fraction `num / den` in lowest terms, negative when `neg` is set.
    pub fn from_ratio(neg: bool, num: u128, den: u128) -> (r: CalcValue)
        requires
            den >= 1,
        ensures
            r == spec_reduce(neg, num as nat, den as nat),
            r.wf(),
            same_ratio(
                r.ratio_num(),
                r.ratio_den(),
                if neg { -(num as int) } else { num as int },
                den as int,
            ),
    {
        proof {
            lemma_reduce_props(neg, num as nat, den as nat);
        }
        if num == 0 {
            CalcValue { neg: false, num: 0, den: 1 }
        } else {
            let g = gcd_u128(num, den);
            proof {
                lemma_gcd_positive(num as nat, den as nat);
            }
            CalcValue { neg, num: num / g, den: den / g }
        }
    }
}

/// A signed integer from a sign and a magnitude.
pub open spec fn spec_signed(neg: bool, mag: nat) -> int {
    if neg {
        -(mag as int)
    } else {
        mag as int
    }
}

/// Ratio equality carries across a shared middle pair.
pub proof fn lemma_ratio_trans(n1: int, d1: int, n2: int, d2: int, n3: int, d3: int)
    requires
        same_ratio(n1, d1, n2, d2),
        same_ratio(n2, d2, n3, d3),
        d2 != 0,
    ensures
        same_ratio(n1, d1, n3, d3),
{
    assert(d2 * (n1 * d3 - n3 * d1) == 0) by (nonlinear_arith)
        requires
            n1 * d2 == n2 * d1,
            n2 * d3 == n3 * d2,
    ;
    assert(n1 * d3 == n3 * d1) by (nonlinear_arith)
        requires
            d2 * (n1 * d3 - n3 * d1) == 0,
            d2 != 0,
    ;
}

/// The sum of `a` and `b` stays within machine magnitudes: each cross
/// product, their denominator product, and (for equal signs) the sum of the
/// cross products all fit in a `u128`.
pub open spec fn spec_add_fits(a: CalcValue, b: CalcValue) -> bool {
    &&& a.num * b.den <= u128::MAX
    &&& b.num * a.den <= u128::MAX
    &&& a.den * b.den <= u128::MAX
    &&& (a.neg == b.neg ==> a.num * b.den + b.num * a.den <= u128::MAX)
}

/// The exact reduced sum of two values.
pub open spec fn spec_add_value(a: CalcValue, b: CalcValue) -> CalcValue {
    let n1 = (a.num * b.den) as nat;
    let n2 = (b.num * a.den) as nat;
    let d = (a.den * b.den) as nat;
    if a.neg == b.neg {
        spec_reduce(a.neg, n1 + n2, d)
    } else if n1 >= n2 {
        spec_reduce(a.neg, (n1 - n2) as nat, d)
    } else {
        spec_reduce(b.neg, (n2 - n1) as nat, d)
    }
}

/// The negation of a value.
pub open spec fn spec_neg_value(a: CalcValue) -> CalcValue {
    if a.num == 0 {
        a
    } else {
        CalcValue { neg: !a.neg, num: a.num, den: a.den }
    }
}

/// The product of `a` and `b` stays within machine magnitudes.
pub open spec fn spec_mul_fits(a: CalcValue, b: CalcValue) -> bool {
    &&& a.num * b.num <= u128::MAX
    &&& a.den * b.den <= u128::MAX
}

/// The exact reduced product of two values.
pub open spec fn spec_mul_value(a: CalcValue, b: CalcValue) -> CalcValue {
    spec_reduce(a.neg != b.neg, (a.num * b.num) as nat, (a.den * b.den) as nat)
}

/// The quotient of `a` by `b` stays within machine magnitudes.
pub open spec fn spec_div_fits(a: CalcValue, b: CalcValue) -> bool {
    &&& a.num * b.den <= u128::MAX
    &&& a.den * b.num <= u128::MAX
}

/// The exact reduced quotient of `a` by a nonzero `b`.
pub open spec fn spec_div_value(a: CalcValue, b: CalcValue) -> CalcValue {
    spec_reduce(a.neg != b.neg, (a.num * b.den) as nat, (a.den * b.num) as nat)
}

impl CalcValue {
    /// The value `n`.
    pub fn from_u128(n: u128) -> (r: CalcValue)
        ensures
            r == (CalcValue { neg: false, num: n, den: 1 }),
            r.wf(),
            r.ratio_num() == n as int,
            r.ratio_den() == 1,
    {
        proof {
            lemma_gcd_one_right(n as nat);
        }
        CalcValue { neg: false, num: n, den: 1 }
    }

    /// The value `-n`.
    pub fn from_neg_u128(n: u128) -> (r: CalcValue)
        ensures
            r == (CalcValue { neg: n > 0, num: n, den: 1 }),
            r.wf(),
            r.ratio_num() == -(n as int),
            r.ratio_den() == 1,
    {
        proof {
            lemma_gcd_one_right(n as nat);
        }
        if n == 0 {
            CalcValue { neg: false, num: 0, den: 1 }
        } else {
            CalcValue { neg: true, num: n, den: 1 }
        }
    }

    /// The exact sum, or `None` when a machine magnitude would overflow.
    pub fn try_add(self, o: CalcValue) -> (r: Option<CalcValue>)
        requires
            self.wf(),
            o.wf(),
        ensures
            r is Some <==> spec_add_fits(self, o),
            match r {
                Some(v) => {
                    &&& v == spec_add_value(self, o)
                    &&& v.wf()
                    &&& same_ratio(
                        v.ratio_num(),
                        v.ratio_den(),
                        self.ratio_num() * o.ratio_den() + o.ratio_num() * self.ratio_den(),
                        self.ratio_den() * o.ratio_den(),
                    )
                },
                None => true,
            },
    {
        let n1_opt = self.num.checked_mul(o.den);
        let n2_opt = o.num.checked_mul(self.den);
        let d_opt = self.den.checked_mul(o.den);
        match (n1_opt, n2_opt, d_opt) {
            (Some(n1), Some(n2), Some(d)) => {
                proof {
                    assert(d >= 1) by (nonlinear_arith)
                        requires
                            self.den >= 1,
                            o.den >= 1,
                            d == self.den * o.den,
                    ;
                }
                if self.neg == o.neg {
                    match n1.checked_add(n2) {
                        Some(m) => {
                            let v = Self::from_ratio(self.neg, m, d);
                            proof {
                                lemma_add_signed_case(self, o, n1 as nat, n2 as nat, d as nat);
                            }
                            Some(v)
                        },
                        None => None,
                    }
                } else if n1 >= n2 {
                    let v = Self::from_ratio(self.neg, n1 - n2, d);
                    proof {
                        lemma_add_signed_case(self, o, n1 as nat, n2 as nat, d as nat);
                    }
                    Some(v)
                } else {
                    let v = Self::from_ratio(o.neg, n2 - n1, d);
                    proof {
                        lemma_add_signed_case(self, o, n1 as nat, n2 as nat, d as nat);
                    }
                    Some(v)
                }
            },
            _ => None,
        }
    }
}

/// The magnitude of a signed integer.
pub open spec fn spec_mag(n: int) -> nat {
    if n < 0 {
        (-n) as nat
    } else {
        n as nat
    }
}

/// Reducing an already well-formed value gives it back unchanged.
pub proof fn lemma_reduce_identity(v: CalcValue)
    requires
        v.wf(),
    ensures
        spec_reduce(v.neg, v.num as nat, v.den as nat) == v,
{
    if v.num == 0 {
    } else {
        assert(spec_gcd(v.num as nat, v.den as nat) == 1);
        vstd::arithmetic::div_mod::lemma_div_basics(v.num as int);
        vstd::arithmetic::div_mod::lemma_div_basics(v.den as int);
    }
}

/// Inputs the calculator can be seeded with: each stands for one exact
/// rational value and normalizes to the same `CalcValue` representative.
pub trait FlexInput: Sized {
    /// Which inputs stand for a valid number.
    spec fn flex_inv(self) -> bool;

    /// The numerator of the exact value this input stands for.
    spec fn flex_num(self) -> int;

    /// The positive denominator of the exact value this input stands for.
    spec fn flex_den(self) -> int;

    /// Normalize to the calculator's exact value type.
    fn to_value(self) -> (r: CalcValue)
        requires
            self.flex_inv(),
        ensures
            r.wf(),
            r == spec_reduce(
                self.flex_num() < 0,
                spec_mag(self.flex_num()),
                spec_mag(self.flex_den()),
            ),
            same_ratio(r.ratio_num(), r.ratio_den(), self.flex_num(), self.flex_den()),
    ;
}

impl FlexInput for CalcValue {
    open spec fn flex_inv(self) -> bool {
        self.wf()
    }

    open spec fn flex_num(self) -> int {
        self.ratio_num()
    }

    open spec fn flex_den(self) -> int {
        self.ratio_den()
    }

    fn to_value(self) -> (r: CalcValue) {
        proof {
            lemma_reduce_identity(self);
        }
        self
    }
}

impl FlexInput for u32 {
    open spec fn flex_inv(self) -> bool {
        true
    }

    open spec fn flex_num(self) -> int {
        self as int
    }

    open spec fn flex_den(self) -> int {
        1
    }

    fn to_value(self) -> (r: CalcValue) {
        let r = CalcValue::from_u128(self as u128);
        proof {
            lemma_int_reduce_form(self as int);
        }
        r
    }
}

impl FlexInput for usize {
    open spec fn flex_inv(self) -> bool {
        true
    }

    open spec fn flex_num(self) -> int {
        self as int
    }

    open spec fn flex_den(self) -> int {
        1
    }

    fn to_value(self) -> (r: CalcValue) {
        let r = CalcValue::from_u128(self as u128);
        proof {
            lemma_int_reduce_form(self as int);
        }
        r
    }
}

impl FlexInput for i32 {
    open spec fn flex_inv(self) -> bool {
        true
    }

    open spec fn flex_num(self) -> int {
        self as int
    }

    open spec fn flex_den(self) -> int {
        1
    }

    fn to_value(self) -> (r: CalcValue) {
        let r = if self < 0 {
            let mag: i64 = -(self as i64);
            CalcValue::from_neg_u128(mag as u128)
        } else {
            CalcValue::from_u128(self as u128)
        };
        proof {
            lemma_int_reduce_form(self as int);
        }
        r
    }
}

/// The reduced form of an integer over 1 keeps its magnitude and sign.
pub proof fn lemma_int_reduce_form(n: int)
    requires
        spec_mag(n) <= u128::MAX,
    ensures
        spec_reduce(n < 0, spec_mag(n), 1) == (CalcValue {
            neg: n < 0 && n != 0,
            num: spec_mag(n) as u128,
            den: 1,
        }),
{
    if n == 0 {
    } else {
        lemma_gcd_one_right(spec_mag(n));
        vstd::arithmetic::div_mod::lemma_div_basics(spec_mag(n) as int);
        vstd::arithmetic::div_mod::lemma_div_basics(1int);
    }
}

impl CalcValue {
    /// The same magnitude with the opposite sign; zero stays canonical.
    pub fn negated(self) -> (r: CalcValue)
        requires
            self.wf(),
        ensures
            r == spec_neg_value(self),
            r.wf(),
            r.ratio_num() == -self.ratio_num(),
            r.ratio_den() == self.ratio_den(),
    {
        if self.num == 0 {
            self
        } else {
            CalcValue { neg: !self.neg, num: self.num, den: self.den }
        }
    }

    /// The exact difference, or `None` when a machine magnitude would
    /// overflow.
    pub fn try_sub(self, o: CalcValue) -> (r: Option<CalcValue>)
        requires
            self.wf(),
            o.wf(),
        ensures
            r is Some <==> spec_add_fits(self, spec_neg_value(o)),
            match r {
                Some(v) => {
                    &&& v == spec_add_value(self, spec_neg_value(o))
                    &&& v.wf()
                    &&& same_ratio(
                        v.ratio_num(),
                        v.ratio_den(),
                        self.ratio_num() * o.ratio_den() - o.ratio_num() * self.ratio_den(),
                        self.ratio_den() * o.ratio_den(),
                    )
                },
                None => true,
            },
    {
        let m = o.negated();
        let r = self.try_add(m);
        proof {
            assert(m.ratio_num() * self.ratio_den() == -(o.ratio_num() * self.ratio_den()))
                by (nonlinear_arith)
                requires
                    m.ratio_num() == -o.ratio_num(),
            ;
        }
        r
    }

    /// The exact product, or `None` when a machine magnitude would overflow.
    pub fn try_mul(self, o: CalcValue) -> (r: Option<CalcValue>)
        requires
            self.wf(),
            o.wf(),
        ensures
            r is Some <==> spec_mul_fits(self, o),
            match r {
                Some(v) => {
                    &&& v == spec_mul_value(self, o)
                    &&& v.wf()
                    &&& same_ratio(
                        v.ratio_num(),
                        v.ratio_den(),
                        self.ratio_num() * o.ratio_num(),
                        self.ratio_den() * o.ratio_den(),
                    )
                },
                None => true,
            },
    {
        let n_opt = self.num.checked_mul(o.num);
        let d_opt = self.den.checked_mul(o.den);
        match (n_opt, d_opt) {
            (Some(n), Some(d)) => {
                proof {
                    assert(d >= 1) by (nonlinear_arith)
                        requires
                            self.den >= 1,
                            o.den >= 1,
                            d == self.den * o.den,
                    ;
                }
                let v = CalcValue::from_ratio(self.neg != o.neg, n, d);
                proof {
                    assert(spec_signed(self.neg != o.neg, n as nat) == self.ratio_num()
                        * o.ratio_num()) by (nonlinear_arith)
                        requires
                            n == self.num * o.num,
                            self.ratio_num() == spec_signed(self.neg, self.num as nat),
                            o.ratio_num() == spec_signed(o.neg, o.num as nat),
                    ;
                }
                Some(v)
            },
            _ => None,
        }
    }

    /// The exact quotient, or `None` when the divisor is zero or a machine
    /// magnitude would overflow.
    pub fn try_div(self, o: CalcValue) -> (r: Option<CalcValue>)
        requires
            self.wf(),
            o.wf(),
        ensures
            r is Some <==> !o.spec_is_zero() && spec_div_fits(self, o),
            match r {
                Some(v) => {
                    &&& v == spec_div_value(self, o)
                    &&& v.wf()
                    &&& same_ratio(
                        v.ratio_num(),
                        v.ratio_den(),
                        self.ratio_num() * o.ratio_den(),
                        self.ratio_den() * o.ratio_num(),
                    )
                },
                None => true,
            },
    {
        if o.num == 0 {
            return None;
        }
        let n_opt = self.num.checked_mul(o.den);
        let d_opt = self.den.checked_mul(o.num);
        match (n_opt, d_opt) {
            (Some(n), Some(d)) => {
                proof {
                    assert(d >= 1) by (nonlinear_arith)
                        requires
                            self.den >= 1,
                            o.num >= 1,
                            d == self.den * o.num,
                    ;
                }
                let v = CalcValue::from_ratio(self.neg != o.neg, n, d);
                proof {
                    let s = spec_signed(self.neg != o.neg, n as nat);
                    let tn = self.ratio_num() * o.ratio_den();
                    let td = self.ratio_den() * o.ratio_num();
                    assert(s * td == tn * (d as int)) by (nonlinear_arith)
                        requires
                            n == self.num * o.den,
                            d == self.den * o.num,
                            s == spec_signed(self.neg != o.neg, n as nat),
                            tn == self.ratio_num() * o.ratio_den(),
                            td == self.ratio_den() * o.ratio_num(),
                            self.ratio_num() == spec_signed(self.neg, self.num as nat),
                            o.ratio_num() == spec_signed(o.neg, o.num as nat),
                            self.ratio_den() == self.den as int,
                            o.ratio_den() == o.den as int,
                    ;
                    lemma_ratio_trans(
                        v.ratio_num(),
                        v.ratio_den(),
                        s,
                        d as int,
                        tn,
                        td,
                    );
                }
                Some(v)
            },
            _ => None,
        }
    }
}

/// The exact sum has the cross-product ratio of its operands.
pub proof fn lemma_add_value_ratio(a: CalcValue, b: CalcValue)
    requires
        a.wf(),
        b.wf(),
        spec_add_fits(a, b),
    ensures
        spec_add_value(a, b).wf(),
        same_ratio(
            spec_add_value(a, b).ratio_num(),
            spec_add_value(a, b).ratio_den(),
            a.ratio_num() * b.ratio_den() + b.ratio_num() * a.ratio_den(),
            a.ratio_den() * b.ratio_den(),
        ),
{
    let n1 = (a.num * b.den) as nat;
    let n2 = (b.num * a.den) as nat;
    let d = (a.den * b.den) as nat;
    assert(d >= 1) by (nonlinear_arith)
        requires
            a.den >= 1,
            b.den >= 1,
            d == a.den * b.den,
    ;
    lemma_add_signed_case(a, b, n1, n2, d);
    if a.neg == b.neg {
        lemma_reduce_props(a.neg, (n1 + n2) as nat, d);
    } else if n1 >= n2 {
        lemma_reduce_props(a.neg, (n1 - n2) as nat, d);
    } else {
        lemma_reduce_props(b.neg, (n2 - n1) as nat, d);
    }
}

/// The exact product has the ratio of the products of its operands' parts.
pub proof fn lemma_mul_value_ratio(a: CalcValue, b: CalcValue)
    requires
        a.wf(),
        b.wf(),
        spec_mul_fits(a, b),
    ensures
        spec_mul_value(a, b).wf(),
        same_ratio(
            spec_mul_value(a, b).ratio_num(),
            spec_mul_value(a, b).ratio_den(),
            a.ratio_num() * b.ratio_num(),
            a.ratio_den() * b.ratio_den(),
        ),
{
    let n = (a.num * b.num) as nat;
    let d = (a.den * b.den) as nat;
    assert(d >= 1) by (nonlinear_arith)
        requires
            a.den >= 1,
            b.den >= 1,
            d == a.den * b.den,
    ;
    lemma_reduce_props(a.neg != b.neg, n, d);
    assert(spec_signed(a.neg != b.neg, n) == a.ratio_num() * b.ratio_num()) by (nonlinear_arith)
        requires
            n == a.num * b.num,
            a.ratio_num() == spec_signed(a.neg, a.num as nat),
            b.ratio_num() == spec_signed(b.neg, b.num as nat),
    ;
}

/// The exact quotient has the crosswise ratio of its operands' parts.
pub proof fn lemma_div_value_ratio(a: CalcValue, b: CalcValue)
    requires
        a.wf(),
        b.wf(),
        !b.spec_is_zero(),
        spec_div_fits(a, b),
    ensures
        spec_div_value(a, b).wf(),
        same_ratio(
            spec_div_value(a, b).ratio_num(),
            spec_div_value(a, b).ratio_den(),
            a.ratio_num() * b.ratio_den(),
            a.ratio_den() * b.ratio_num(),
        ),
{
    let n = (a.num * b.den) as nat;
    let d = (a.den * b.num) as nat;
    assert(d >= 1) by (nonlinear_arith)
        requires
            a.den >= 1,
            b.num >= 1,
            d == a.den * b.num,
    ;
    lemma_reduce_props(a.neg != b.neg, n, d);
    let v = spec_div_value(a, b);
    let s = spec_signed(a.neg != b.neg, n);
    let tn = a.ratio_num() * b.ratio_den();
    let td = a.ratio_den() * b.ratio_num();
    assert(s * td == tn * (d as int)) by (nonlinear_arith)
        requires
            n == a.num * b.den,
            d == a.den * b.num,
            s == spec_signed(a.neg != b.neg, n),
            tn == a.ratio_num() * b.ratio_den(),
            td == a.ratio_den() * b.ratio_num(),
            a.ratio_num() == spec_signed(a.neg, a.num as nat),
            b.ratio_num() == spec_signed(b.neg, b.num as nat),
            a.ratio_den() == a.den as int,
            b.ratio_den() == b.den as int,
    ;
    lemma_ratio_trans(v.ratio_num(), v.ratio_den(), s, d as int, tn, td);
}

/// Replacing one addend pair by an equal-ratio pair keeps the ratio of the
/// cross-product sum.
pub proof fn lemma_add_pair_subst(sn: int, sd: int, xn: int, xd: int, yn: int, yd: int)
    requires
        same_ratio(xn, xd, yn, yd),
        sd != 0,
    ensures
        same_ratio(sn * xd + xn * sd, sd * xd, sn * yd + yn * sd, sd * yd),
{
    assert((sn * xd + xn * sd) * (sd * yd) == sn * xd * sd * yd + xn * sd * sd * yd)
        by (nonlinear_arith);
    assert((sn * yd + yn * sd) * (sd * xd) == sn * yd * sd * xd + yn * sd * sd * xd)
        by (nonlinear_arith);
    assert(xn * sd * sd * yd == yn * sd * sd * xd) by (nonlinear_arith)
        requires
            xn * yd == yn * xd,
    ;
    assert(sn * xd * sd * yd == sn * yd * sd * xd) by (nonlinear_arith);
}

/// Replacing one factor pair by an equal-ratio pair keeps the ratio of the
/// componentwise product.
pub proof fn lemma_mul_pair_subst(sn: int, sd: int, xn: int, xd: int, yn: int, yd: int)
    requires
        same_ratio(xn, xd, yn, yd),
    ensures
        same_ratio(sn * xn, sd * xd, sn * yn, sd * yd),
        same_ratio(sn * xd, sd * xn, sn * yd, sd * yn),
{
    assert((sn * xn) * (sd * yd) == (sn * yn) * (sd * xd)) by (nonlinear_arith)
        requires
            xn * yd == yn * xd,
    ;
    assert((sn * xd) * (sd * yn) == (sn * yd) * (sd * xn)) by (nonlinear_arith)
        requires
            xn * yd == yn * xd,
    ;
}

/// The gcd of any number and 1 is 1.
pub proof fn lemma_gcd_one_right(n: nat)
    ensures
        spec_gcd(n, 1) == 1,
{
    assert(n % 1 == 0) by {
        vstd::arithmetic::div_mod::lemma_mod_multiples_basic(n as int, 1int);
    };
    assert(spec_gcd(n, 1) == spec_gcd(1, 0));
}

/// The signed numerator of the reduced sum matches the cross-product form,
/// whatever the signs of the operands.
proof fn lemma_add_signed_case(a: CalcValue, b: CalcValue, n1: nat, n2: nat, d: nat)
    requires
        a.wf(),
        b.wf(),
        n1 == a.num * b.den,
        n2 == b.num * a.den,
        d == a.den * b.den,
        n1 <= u128::MAX,
        n2 <= u128::MAX,
        1 <= d <= u128::MAX,
        a.neg == b.neg ==> n1 + n2 <= u128::MAX,
    ensures
        same_ratio(
            spec_add_value(a, b).ratio_num(),
            spec_add_value(a, b).ratio_den(),
            a.ratio_num() * b.ratio_den() + b.ratio_num() * a.ratio_den(),
            a.ratio_den() * b.ratio_den(),
        ),
{
    let tn = a.ratio_num() * b.ratio_den() + b.ratio_num() * a.ratio_den();
    let td = a.ratio_den() * b.ratio_den();
    assert(td == d as int);
    // The raw signed numerator of the sum equals the cross-product form.
    if a.neg == b.neg {
        let m = (n1 + n2) as nat;
        assert(spec_signed(a.neg, m) == tn) by (nonlinear_arith)
            requires
                n1 == a.num * b.den,
                n2 == b.num * a.den,
                m == n1 + n2,
                tn == a.ratio_num() * b.ratio_den() + b.ratio_num() * a.ratio_den(),
                a.ratio_num() == spec_signed(a.neg, a.num as nat),
                b.ratio_num() == spec_signed(b.neg, b.num as nat),
                a.ratio_den() == a.den as int,
                b.ratio_den() == b.den as int,
                a.neg == b.neg,
        ;
        lemma_reduce_props(a.neg, m, d);
        let v = spec_reduce(a.neg, m, d);
        assert(same_ratio(v.ratio_num(), v.ratio_den(), spec_signed(a.neg, m), d as int));
        assert(v == spec_add_value(a, b));
    } else if n1 >= n2 {
        let m = (n1 - n2) as nat;
        assert(spec_signed(a.neg, m) == tn) by (nonlinear_arith)
            requires
                n1 == a.num * b.den,
                n2 == b.num * a.den,
                m == n1 - n2,
                n1 >= n2,
                tn == a.ratio_num() * b.ratio_den() + b.ratio_num() * a.ratio_den(),
                a.ratio_num() == spec_signed(a.neg, a.num as nat),
                b.ratio_num() == spec_signed(b.neg, b.num as nat),
                a.ratio_den() == a.den as int,
                b.ratio_den() == b.den as int,
                a.neg != b.neg,
        ;
        lemma_reduce_props(a.neg, m, d);
        let v = spec_reduce(a.neg, m, d);
        assert(same_ratio(v.ratio_num(), v.ratio_den(), spec_signed(a.neg, m), d as int));
        assert(v == spec_add_value(a, b));
    } else {
        let m = (n2 - n1) as nat;
        assert(spec_signed(b.neg, m) == tn) by (nonlinear_arith)
            requires
                n1 == a.num * b.den,
                n2 == b.num * a.den,
                m == n2 - n1,
                n1 < n2,
                tn == a.ratio_num() * b.ratio_den() + b.ratio_num() * a.ratio_den(),
                a.ratio_num() == spec_signed(a.neg, a.num as nat),
                b.ratio_num() == spec_signed(b.neg, b.num as nat),
                a.ratio_den() == a.den as int,
                b.ratio_den() == b.den as int,
                a.neg != b.neg,
        ;
        lemma_reduce_props(b.neg, m, d);
        let v = spec_reduce(b.neg, m, d);
        assert(same_ratio(v.ratio_num(), v.ratio_den(), spec_signed(b.neg, m), d as int));
        assert(v == spec_add_value(a, b));
    }
}

/// Euclid's algorithm.
fn gcd_u128(a: u128, b: u128) -> (g: u128)
    ensures
        g == spec_gcd(a as nat, b as nat),
{
    let mut x: u128 = a;
    let mut y: u128 = b;
    while y != 0
        invariant
            spec_gcd(x as nat, y as nat) == spec_gcd(a as nat, b as nat),
        decreases y,
    {
        let r: u128 = x % y;
        x = y;
        y = r;
    }
    x
}

} // verus!
