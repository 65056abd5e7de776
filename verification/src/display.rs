//! The fixed-width screen lines: exact decimal rendering of a value, and the
//! overload recovery when a value does not fit its display width.

use vstd::prelude::*;
use vstd::arithmetic::power::pow;

use crate::entry::SumVariable;
use crate::ops::{spec_zero_value, SumCurrent};
use crate::value::CalcValue;

verus! {

/// The character of one decimal digit.
pub open spec fn spec_digit_char(d: int) -> char {
    if d == 0 {
        '0'
    } else if d == 1 {
        '1'
    } else if d == 2 {
        '2'
    } else if d == 3 {
        '3'
    } else if d == 4 {
        '4'
    } else if d == 5 {
        '5'
    } else if d == 6 {
        '6'
    } else if d == 7 {
        '7'
    } else if d == 8 {
        '8'
    } else {
        '9'
    }
}

/// The decimal digits of `n`, most significant first; zero is "0".
pub open spec fn spec_dec_digits(n: nat) -> Seq<char>
    decreases n,
{
    if n < 10 {
        seq![spec_digit_char(n as int)]
    } else {
        spec_dec_digits(n / 10).push(spec_digit_char((n % 10) as int))
    }
}

/// How many decimal digits `n` has; zero has one.
pub open spec fn spec_num_digits(n: nat) -> nat
    decreases n,
{
    if n < 10 {
        1
    } else {
        1 + spec_num_digits(n / 10)
    }
}

/// The digit string of `n` is exactly as long as its digit count.
pub proof fn lemma_dec_digits_len(n: nat)
    ensures
        spec_dec_digits(n).len() == spec_num_digits(n),
    decreases n,
{
    if n >= 10 {
        lemma_dec_digits_len(n / 10);
    }
}

/// Every number a machine word holds has at most 39 decimal digits.
pub proof fn lemma_num_digits_le(n: nat, k: nat)
    requires
        k >= 1,
        n < pow(10, k),
    ensures
        spec_num_digits(n) <= k,
    decreases n,
{
    if n < 10 {
    } else {
        assert(pow(10, k) == 10 * pow(10, (k - 1) as nat)) by {
            vstd::arithmetic::power::lemma_pow1(10);
            vstd::arithmetic::power::lemma_pow_adds(10, 1, (k - 1) as nat);
        };
        assert(k >= 2) by {
            if k == 1 {
                vstd::arithmetic::power::lemma_pow1(10);
            }
        };
        assert(n / 10 < pow(10, (k - 1) as nat)) by {
            vstd::arithmetic::power::lemma_pow_positive(10, (k - 1) as nat);
            vstd::arithmetic::div_mod::lemma_fundamental_div_mod(n as int, 10);
        };
        lemma_num_digits_le(n / 10, (k - 1) as nat);
    }
}

/// A number at least `10^k` has more than `k` decimal digits.
pub proof fn lemma_num_digits_ge(n: nat, k: nat)
    requires
        n >= pow(10, k),
    ensures
        spec_num_digits(n) >= k + 1,
    decreases n,
{
    if k == 0 {
    } else {
        assert(pow(10, k) == 10 * pow(10, (k - 1) as nat)) by {
            vstd::arithmetic::power::lemma_pow1(10);
            vstd::arithmetic::power::lemma_pow_adds(10, 1, (k - 1) as nat);
        };
        assert(pow(10, (k - 1) as nat) >= 1) by {
            vstd::arithmetic::power::lemma_pow_positive(10, (k - 1) as nat);
        };
        assert(n >= 10);
        assert(n / 10 >= pow(10, (k - 1) as nat)) by {
            vstd::arithmetic::div_mod::lemma_fundamental_div_mod(n as int, 10);
        };
        lemma_num_digits_ge(n / 10, (k - 1) as nat);
    }
}

/// The power-of-ten values the width arguments lean on.
pub proof fn lemma_pow10_values()
    ensures
        pow(10, 8) == 100000000,
        pow(10, 32) == 0x4EE2D6D415B85ACEF8100000000,
        pow(10, 38) < u128::MAX,
        pow(10, 39) > u128::MAX,
{
    vstd::arithmetic::power::lemma_pow1(10);
    assert(pow(10, 2) == 100) by {
        vstd::arithmetic::power::lemma_pow_adds(10, 1, 1);
    };
    assert(pow(10, 4) == 10000) by {
        vstd::arithmetic::power::lemma_pow_adds(10, 2, 2);
    };
    assert(pow(10, 8) == 100000000) by {
        vstd::arithmetic::power::lemma_pow_adds(10, 4, 4);
    };
    assert(pow(10, 16) == 0x2386F26FC10000) by {
        vstd::arithmetic::power::lemma_pow_adds(10, 8, 8);
    };
    assert(pow(10, 32) == 0x4EE2D6D415B85ACEF8100000000) by {
        vstd::arithmetic::power::lemma_pow_adds(10, 16, 16);
    };
    assert(pow(10, 36) == pow(10, 32) * 10000) by {
        vstd::arithmetic::power::lemma_pow_adds(10, 32, 4);
    };
    assert(pow(10, 38) == pow(10, 36) * 100) by {
        vstd::arithmetic::power::lemma_pow_adds(10, 36, 2);
    };
    assert(pow(10, 39) == pow(10, 38) * 10) by {
        vstd::arithmetic::power::lemma_pow_adds(10, 38, 1);
    };
}

/// How often `p` divides `n`, and what is left of `n` after dividing all
/// those factors out.
pub open spec fn spec_strip(n: nat, p: nat) -> (nat, nat)
    decreases n,
    via spec_strip_decreases
{
    if 2 <= p && 1 <= n && n % p == 0 {
        let inner = spec_strip(n / p, p);
        ((inner.0 + 1) as nat, inner.1)
    } else {
        (0, n)
    }
}

#[via_fn]
proof fn spec_strip_decreases(n: nat, p: nat) {
    if 2 <= p && 1 <= n && n % p == 0 {
        vstd::arithmetic::div_mod::lemma_div_decreases(n as int, p as int);
    }
}

/// Stripping a factor decomposes the number exactly: what is left, times the
/// factor raised to the count, gives the number back, and the factor does not
/// divide what is left. The count is small (the factor to it stays under the
/// number).
pub proof fn lemma_strip_props(n: nat, p: nat)
    requires
        2 <= p,
        1 <= n,
    ensures
        n == spec_strip(n, p).1 * pow(p as int, spec_strip(n, p).0),
        1 <= spec_strip(n, p).1 <= n,
        spec_strip(n, p).1 % p != 0,
        pow(2, spec_strip(n, p).0) <= n,
    decreases n,
{
    let c = spec_strip(n, p).0;
    let r = spec_strip(n, p).1;
    if n % p == 0 {
        let m = n / p;
        assert(n == p * m) by {
            vstd::arithmetic::div_mod::lemma_fundamental_div_mod(n as int, p as int);
        };
        assert(m >= 1) by {
            assert(p * 0 == 0) by (nonlinear_arith);
        };
        assert(m < n) by (nonlinear_arith)
            requires
                n == p * m,
                p >= 2,
                m >= 1,
        ;
        lemma_strip_props(m, p);
        let ci = spec_strip(m, p).0;
        assert(c == ci + 1 && r == spec_strip(m, p).1);
        assert(pow(p as int, c) == p * pow(p as int, ci)) by {
            vstd::arithmetic::power::lemma_pow1(p as int);
            vstd::arithmetic::power::lemma_pow_adds(p as int, 1, ci);
        };
        assert(n == r * pow(p as int, c)) by (nonlinear_arith)
            requires
                n == p * m,
                m == r * pow(p as int, ci),
                pow(p as int, c) == p * pow(p as int, ci),
        ;
        assert(pow(2, c) == 2 * pow(2, ci)) by {
            vstd::arithmetic::power::lemma_pow1(2);
            vstd::arithmetic::power::lemma_pow_adds(2, 1, ci);
        };
        assert(pow(2, c) <= n) by (nonlinear_arith)
            requires
                pow(2, ci) <= m,
                pow(2, c) == 2 * pow(2, ci),
                n == p * m,
                p >= 2,
                m >= 1,
        ;
    } else {
        assert(c == 0 && r == n);
        vstd::arithmetic::power::lemma_pow0(p as int);
        vstd::arithmetic::power::lemma_pow0(2);
    }
}

/// Two to the 128th exceeds the largest machine magnitude.
pub proof fn lemma_pow2_128()
    ensures
        pow(2, 128) > u128::MAX,
{
    vstd::arithmetic::power::lemma_pow1(2);
    assert(pow(2, 2) == 4) by {
        vstd::arithmetic::power::lemma_pow_adds(2, 1, 1);
    };
    assert(pow(2, 4) == 16) by {
        vstd::arithmetic::power::lemma_pow_adds(2, 2, 2);
    };
    assert(pow(2, 8) == 256) by {
        vstd::arithmetic::power::lemma_pow_adds(2, 4, 4);
    };
    assert(pow(2, 16) == 0x10000) by {
        vstd::arithmetic::power::lemma_pow_adds(2, 8, 8);
    };
    assert(pow(2, 32) == 0x100000000) by {
        vstd::arithmetic::power::lemma_pow_adds(2, 16, 16);
    };
    assert(pow(2, 64) == 0x10000000000000000) by {
        vstd::arithmetic::power::lemma_pow_adds(2, 32, 32);
    };
    assert(pow(2, 128) == 0x10000000000000000 * 0x10000000000000000) by {
        vstd::arithmetic::power::lemma_pow_adds(2, 64, 64);
    };
}

/// Divide all factors `p` out of `n`, counting them.
fn strip_factor(n: u128, p: u128) -> (r: (u32, u128))
    requires
        1 <= n,
        2 <= p,
    ensures
        r.0 == spec_strip(n as nat, p as nat).0,
        r.1 == spec_strip(n as nat, p as nat).1,
    decreases n,
{
    proof {
        lemma_strip_props(n as nat, p as nat);
        lemma_pow2_128();
        if spec_strip(n as nat, p as nat).0 >= 128 {
            vstd::arithmetic::power::lemma_pow_increases(2, 128, spec_strip(n as nat, p as nat).0);
        }
    }
    if n % p == 0 {
        let m = n / p;
        proof {
            vstd::arithmetic::div_mod::lemma_fundamental_div_mod(n as int, p as int);
            assert(p * 0 == 0) by (nonlinear_arith);
            lemma_strip_props(m as nat, p as nat);
            lemma_pow2_128();
            if spec_strip(m as nat, p as nat).0 >= 128 {
                vstd::arithmetic::power::lemma_pow_increases(
                    2,
                    128,
                    spec_strip(m as nat, p as nat).0,
                );
            }
        }
        let inner = strip_factor(m, p);
        (inner.0 + 1, inner.1)
    } else {
        (0, n)
    }
}

/// The digit string of `m` with a decimal point placed `f` digits from the
/// right: the last `f` digits are the fraction, and what is left of the
/// quotient — "0" if nothing — stands before the point.
pub open spec fn spec_point_chars(m: nat, f: nat) -> Seq<char>
    decreases f,
{
    if f == 0 {
        spec_dec_digits(m).push('.')
    } else {
        spec_point_chars(m / 10, (f - 1) as nat).push(spec_digit_char((m % 10) as int))
    }
}

/// The digit string of the mantissa `m` scaled by `10^-f`: a plain integer
/// for `f == 0`, otherwise with the decimal point `f` digits from the right.
pub open spec fn spec_mantissa_chars(m: nat, f: nat) -> Seq<char> {
    if f == 0 {
        spec_dec_digits(m)
    } else {
        spec_point_chars(m, f)
    }
}

/// A pointed digit string is at least as long as the fraction plus the point
/// and one integer digit, and at least one longer than the mantissa's digits.
pub proof fn lemma_point_chars_len(m: nat, f: nat)
    ensures
        spec_point_chars(m, f).len() >= f + 2,
        spec_point_chars(m, f).len() >= spec_num_digits(m) + 1,
    decreases f,
{
    if f == 0 {
        lemma_dec_digits_len(m);
    } else {
        lemma_point_chars_len(m / 10, (f - 1) as nat);
    }
}

/// How many twos the reduced denominator holds.
pub open spec fn spec_den_pow2(v: CalcValue) -> nat {
    spec_strip(v.den as nat, 2).0
}

/// How many fives the reduced denominator holds.
pub open spec fn spec_den_pow5(v: CalcValue) -> nat {
    spec_strip(spec_strip(v.den as nat, 2).1, 5).0
}

/// What is left of the reduced denominator after its twos and fives.
pub open spec fn spec_den_rest(v: CalcValue) -> nat {
    spec_strip(spec_strip(v.den as nat, 2).1, 5).1
}

/// A reduced value has a finite decimal form exactly when its denominator is
/// made of twos and fives alone.
pub open spec fn spec_terminating(v: CalcValue) -> bool {
    spec_den_rest(v) == 1
}

/// How many fraction digits the finite decimal form has.
pub open spec fn spec_frac_len(v: CalcValue) -> nat {
    let a = spec_den_pow2(v);
    let b = spec_den_pow5(v);
    if a >= b {
        a
    } else {
        b
    }
}

/// The mantissa of the finite decimal form: the numerator brought up to the
/// denominator `10^spec_frac_len(v)`.
pub open spec fn spec_mantissa(v: CalcValue) -> nat {
    let a = spec_den_pow2(v);
    let b = spec_den_pow5(v);
    let f = spec_frac_len(v);
    (v.num * pow(2, (f - a) as nat) * pow(5, (f - b) as nat)) as nat
}

/// The decimal form of a terminating reduced value: an optional minus sign,
/// the mantissa's digits, and — when fraction digits exist — the decimal
/// point before the last `spec_frac_len(v)` of them.
pub open spec fn spec_repr(v: CalcValue) -> Seq<char> {
    let body = spec_mantissa_chars(spec_mantissa(v), spec_frac_len(v));
    if v.neg {
        seq!['-'] + body
    } else {
        body
    }
}

/// The value has a finite decimal form of at most `w` characters.
pub open spec fn spec_displayable(v: CalcValue, w: int) -> bool {
    spec_terminating(v) && spec_repr(v).len() <= w
}

/// One digit as a string slice.
fn digit_str(d: u128) -> (r: &'static str)
    requires
        d < 10,
    ensures
        r@ =~= seq![spec_digit_char(d as int)],
{
    match d {
        0 => {
            proof {
                reveal_strlit("0");
            }
            "0"
        },
        1 => {
            proof {
                reveal_strlit("1");
            }
            "1"
        },
        2 => {
            proof {
                reveal_strlit("2");
            }
            "2"
        },
        3 => {
            proof {
                reveal_strlit("3");
            }
            "3"
        },
        4 => {
            proof {
                reveal_strlit("4");
            }
            "4"
        },
        5 => {
            proof {
                reveal_strlit("5");
            }
            "5"
        },
        6 => {
            proof {
                reveal_strlit("6");
            }
            "6"
        },
        7 => {
            proof {
                reveal_strlit("7");
            }
            "7"
        },
        8 => {
            proof {
                reveal_strlit("8");
            }
            "8"
        },
        _ => {
            proof {
                reveal_strlit("9");
            }
            "9"
        },
    }
}

/// The decimal digit string of `n`.
fn u128_to_string(n: u128) -> (s: String)
    ensures
        s@ =~= spec_dec_digits(n as nat),
    decreases n,
{
    if n < 10 {
        String::from_str(digit_str(n))
    } else {
        let mut s = u128_to_string(n / 10);
        s.append(digit_str(n % 10));
        s
    }
}

/// Render `m` with a decimal point `f` digits from the right.
fn render_point(m: u128, f: u32) -> (s: String)
    ensures
        s@ =~= spec_point_chars(m as nat, f as nat),
    decreases f,
{
    if f == 0 {
        let mut s = u128_to_string(m);
        proof {
            reveal_strlit(".");
        }
        s.append(".");
        proof {
            assert(s@ =~= spec_dec_digits(m as nat).push('.'));
        }
        s
    } else {
        let mut s = render_point(m / 10, f - 1);
        s.append(digit_str(m % 10));
        proof {
            assert(s@ =~= spec_point_chars((m / 10) as nat, (f - 1) as nat).push(
                spec_digit_char((m % 10) as int),
            ));
        }
        s
    }
}

/// The finite decimal form of a value, when it has one of at most `width`
/// characters; `None` otherwise (the overload case).
pub fn try_repr(v: &CalcValue, width: usize) -> (r: Option<String>)
    requires
        v.wf(),
        1 <= width <= 32,
    ensures
        r is Some <==> spec_displayable(*v, width as int),
        match r {
            Some(s) => s@ == spec_repr(*v),
            None => true,
        },
{
    proof {
        lemma_strip_props(v.den as nat, 2);
        lemma_strip_props(spec_strip(v.den as nat, 2).1, 5);
        lemma_pow10_values();
        lemma_pow2_128();
    }
    let (a, rest2) = strip_factor(v.den, 2);
    let (b, rest) = strip_factor(rest2, 5);
    if rest != 1 {
        return None;
    }
    let f: u32 = if a >= b {
        a
    } else {
        b
    };
    proof {
        assert(f as nat == spec_frac_len(*v));
    }
    if f as usize > width {
        proof {
            lemma_point_chars_len(spec_mantissa(*v), f as nat);
        }
        return None;
    }
    let mant = match exact_mantissa(v, f, a, b) {
        Some(m) => m,
        None => {
            proof {
                assert(spec_mantissa(*v) > u128::MAX);
                lemma_num_digits_ge(spec_mantissa(*v), 38);
                lemma_dec_digits_len(spec_mantissa(*v));
                if spec_frac_len(*v) > 0 {
                    lemma_point_chars_len(spec_mantissa(*v), spec_frac_len(*v));
                }
            }
            return None;
        },
    };
    let body = if f == 0 {
        u128_to_string(mant)
    } else {
        render_point(mant, f)
    };
    let full = if v.neg {
        proof {
            reveal_strlit("-");
        }
        let mut s = String::from_str("-");
        s.append(body.as_str());
        proof {
            assert(s@ =~= seq!['-'] + body@);
        }
        s
    } else {
        body
    };
    proof {
        assert(full@ =~= spec_repr(*v));
    }
    let len = full.as_str().unicode_len();
    if len > width {
        None
    } else {
        Some(full)
    }
}

/// The mantissa of the finite decimal form, or `None` when it exceeds the
/// machine range.
fn exact_mantissa(v: &CalcValue, f: u32, a: u32, b: u32) -> (r: Option<u128>)
    requires
        v.wf(),
        a as nat == spec_den_pow2(*v),
        b as nat == spec_den_pow5(*v),
        f as nat == spec_frac_len(*v),
    ensures
        match r {
            Some(m) => m as nat == spec_mantissa(*v),
            None => spec_mantissa(*v) > u128::MAX,
        },
{
    proof {
        vstd::arithmetic::power::lemma_pow_positive(2, (f - a) as nat);
        vstd::arithmetic::power::lemma_pow_positive(5, (f - b) as nat);
    }
    let c2 = match crate::digits::pow_checked_u128(2, f - a) {
        Some(p) => p,
        None => {
            proof {
                lemma_mantissa_factor_big(*v);
            }
            return None;
        },
    };
    let c5 = match crate::digits::pow_checked_u128(5, f - b) {
        Some(p) => p,
        None => {
            proof {
                lemma_mantissa_factor_big(*v);
            }
            return None;
        },
    };
    let cof = match c2.checked_mul(c5) {
        Some(c) => c,
        None => {
            proof {
                lemma_mantissa_factor_big(*v);
            }
            return None;
        },
    };
    match v.num.checked_mul(cof) {
        Some(m) => {
            proof {
                assert(m as int == v.num * pow(2, (f - a) as nat) * pow(5, (f - b) as nat))
                    by (nonlinear_arith)
                    requires
                        m as int == v.num * ((c2 as int) * (c5 as int)),
                        c2 == pow(2, ((f - a) as u32) as nat),
                        c5 == pow(5, ((f - b) as u32) as nat),
                        pow(2, ((f - a) as u32) as nat) == pow(2, (f as nat - a as nat) as nat),
                        pow(5, ((f - b) as u32) as nat) == pow(5, (f as nat - b as nat) as nat),
                ;
            }
            Some(m)
        },
        None => {
            proof {
                assert(v.num * cof > u128::MAX);
                assert(v.num * pow(2, (f - a) as nat) * pow(5, (f - b) as nat) > u128::MAX)
                    by (nonlinear_arith)
                    requires
                        v.num * ((c2 as int) * (c5 as int)) > u128::MAX,
                        c2 == pow(2, (f as nat - a as nat) as nat),
                        c5 == pow(5, (f as nat - b as nat) as nat),
                ;
            }
            None
        },
    }
}

/// When one factor of the mantissa already exceeds the machine range, so
/// does the mantissa: the numerator is at least one (a zero numerator has
/// denominator one, whose factors are trivial), and so is each factor.
proof fn lemma_mantissa_factor_big(v: CalcValue)
    requires
        v.wf(),
        pow(2, (spec_frac_len(v) - spec_den_pow2(v)) as nat) > u128::MAX || pow(
            5,
            (spec_frac_len(v) - spec_den_pow5(v)) as nat,
        ) > u128::MAX || pow(2, (spec_frac_len(v) - spec_den_pow2(v)) as nat) * pow(
            5,
            (spec_frac_len(v) - spec_den_pow5(v)) as nat,
        ) > u128::MAX,
    ensures
        spec_mantissa(v) > u128::MAX,
{
    let a = spec_den_pow2(v);
    let b = spec_den_pow5(v);
    let f = spec_frac_len(v);
    let p2 = pow(2, (f - a) as nat);
    let p5 = pow(5, (f - b) as nat);
    vstd::arithmetic::power::lemma_pow_positive(2, (f - a) as nat);
    vstd::arithmetic::power::lemma_pow_positive(5, (f - b) as nat);
    if v.num == 0 {
        // A zero value has denominator one, so every factor is one and none
        // can exceed the machine range.
        assert(v.den == 1);
        assert(spec_strip(1, 2) == (0nat, 1nat));
        assert(spec_strip(1, 5) == (0nat, 1nat));
        assert(a == 0 && b == 0 && f == 0);
        vstd::arithmetic::power::lemma_pow0(2);
        vstd::arithmetic::power::lemma_pow0(5);
        assert(false);
    }
    assert(v.num >= 1);
    assert(v.num * p2 * p5 > u128::MAX) by (nonlinear_arith)
        requires
            v.num >= 1,
            p2 >= 1,
            p5 >= 1,
            p2 > u128::MAX || p5 > u128::MAX || p2 * p5 > u128::MAX,
    ;
}

/// The sum line of the screen. A total whose decimal form fits eight
/// characters renders after the "Sum: " label; any other total trips the
/// overload recovery: the total is reset to zero, the entry is cleared, and
/// the fixed overload label is shown instead of the numeral.
pub fn update_sum_text(sum: &mut SumCurrent, var: &mut SumVariable) -> (text: String)
    requires
        old(sum).sum.wf(),
        old(var).wf(),
    ensures
        final(sum).sum.wf(),
        final(var).wf(),
        spec_displayable(old(sum).sum, 8) ==> {
            &&& *final(sum) == *old(sum)
            &&& *final(var) == *old(var)
            &&& text@ == "Sum: "@ + spec_repr(old(sum).sum)
        },
        !spec_displayable(old(sum).sum, 8) ==> {
            &&& final(sum).sum == spec_zero_value()
            &&& final(var).var@.len() == 0
            &&& final(var).decimal_index == 0
            &&& text@ == "S: Overload"@
        },
{
    match try_repr(&sum.sum, 8) {
        Some(repr) => {
            let mut text = String::from_str("Sum: ");
            text.append(repr.as_str());
            text
        },
        None => {
            SumCurrent::zero(sum);
            var.clear();
            String::from_str("S: Overload")
        },
    }
}

/// The input line of the screen. An entry that decodes within the machine
/// range and whose decimal form fits six characters renders after the
/// "Input: " label; any other entry trips the same overload recovery as the
/// sum line: total reset, entry cleared, and the fixed overload label shown.
pub fn update_var_text(sum: &mut SumCurrent, var: &mut SumVariable) -> (text: String)
    requires
        old(sum).sum.wf(),
        old(var).wf(),
    ensures
        final(sum).sum.wf(),
        final(var).wf(),
        old(var).spec_entry_fits() && spec_displayable(old(var).spec_entry_value(), 6) ==> {
            &&& *final(sum) == *old(sum)
            &&& *final(var) == *old(var)
            &&& text@ == "Input: "@ + spec_repr(old(var).spec_entry_value())
        },
        !(old(var).spec_entry_fits() && spec_displayable(old(var).spec_entry_value(), 6)) ==> {
            &&& final(sum).sum == spec_zero_value()
            &&& final(var).var@.len() == 0
            &&& final(var).decimal_index == 0
            &&& text@ == "I: Overload"@
        },
{
    let decoded = match var.decode() {
        Some(v) => Some(v),
        None => None,
    };
    let repr = match decoded {
        Some(v) => try_repr(&v, 6),
        None => None,
    };
    match repr {
        Some(repr) => {
            let mut text = String::from_str("Input: ");
            text.append(repr.as_str());
            text
        },
        None => {
            SumCurrent::zero(sum);
            var.clear();
            String::from_str("I: Overload")
        },
    }
}

/// The decimal digit count of `n`.
fn num_digits_u128(n: u128) -> (d: u32)
    ensures
        d == spec_num_digits(n as nat),
        d >= 1,
    decreases n,
{
    proof {
        lemma_pow10_values();
        lemma_num_digits_le(n as nat, 39);
    }
    if n < 10 {
        1
    } else {
        1 + num_digits_u128(n / 10)
    }
}

} // verus!
