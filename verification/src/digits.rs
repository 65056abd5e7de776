//! Decimal positional arithmetic: the value of a digit sequence, powers of
//! ten, and digit counts.

use vstd::prelude::*;
use vstd::arithmetic::power::pow;

verus! {

/// The base-10 integer written by a digit sequence, most significant first.
/// The empty sequence writes 0.
pub open spec fn spec_digits_val(s: Seq<i32>) -> int
    decreases s.len(),
{
    if s.len() == 0 {
        0
    } else {
        spec_digits_val(s.drop_last()) * 10 + s.last()
    }
}

/// Every element is a single decimal digit.
pub open spec fn all_digits(s: Seq<i32>) -> bool {
    forall|i: int| 0 <= i < s.len() ==> 0 <= #[trigger] s[i] <= 9
}

/// A digit sequence writes a non-negative number.
pub proof fn lemma_digits_val_nonneg(s: Seq<i32>)
    requires
        all_digits(s),
    ensures
        spec_digits_val(s) >= 0,
    decreases s.len(),
{
    if s.len() > 0 {
        assert(all_digits(s.drop_last()));
        lemma_digits_val_nonneg(s.drop_last());
    }
}

/// A prefix of a digit sequence writes no more than the whole sequence.
pub proof fn lemma_digits_val_prefix_le(s: Seq<i32>, i: int)
    requires
        all_digits(s),
        0 <= i <= s.len(),
    ensures
        spec_digits_val(s.subrange(0, i)) <= spec_digits_val(s),
    decreases s.len(),
{
    lemma_digits_val_nonneg(s);
    if i == s.len() {
        assert(s.subrange(0, i) =~= s);
    } else {
        let t = s.drop_last();
        assert(all_digits(t));
        assert(s.subrange(0, i) =~= t.subrange(0, i));
        lemma_digits_val_prefix_le(t, i);
        lemma_digits_val_nonneg(t);
    }
}

/// `base^e`, or `None` when it exceeds the `u128` range.
pub fn pow_checked_u128(base: u128, e: u32) -> (r: Option<u128>)
    requires
        2 <= base,
    ensures
        match r {
            Some(p) => p == pow(base as int, e as nat),
            None => pow(base as int, e as nat) > u128::MAX,
        },
{
    let mut acc: u128 = 1;
    let mut j: u32 = 0;
    proof {
        vstd::arithmetic::power::lemma_pow0(base as int);
    }
    while j < e
        invariant
            2 <= base,
            0 <= j <= e,
            acc == pow(base as int, j as nat),
            acc >= 1,
        decreases e - j,
    {
        proof {
            vstd::arithmetic::power::lemma_pow1(base as int);
            vstd::arithmetic::power::lemma_pow_adds(base as int, j as nat, 1);
            assert(pow(base as int, (j + 1) as nat) == acc * base);
            assert(acc * base >= 1) by (nonlinear_arith)
                requires
                    acc >= 1,
                    base >= 2,
            ;
        }
        match acc.checked_mul(base) {
            Some(next) => {
                acc = next;
                j = j + 1;
            },
            None => {
                proof {
                    if (j + 1) as nat <= e as nat {
                        vstd::arithmetic::power::lemma_pow_increases(
                            base as nat,
                            (j + 1) as nat,
                            e as nat,
                        );
                    }
                }
                return None;
            },
        }
    }
    Some(acc)
}

/// `10^e`, or `None` when it exceeds the `u128` range.
pub fn pow10_checked(e: usize) -> (r: Option<u128>)
    ensures
        match r {
            Some(p) => p == pow(10, e as nat),
            None => pow(10, e as nat) > u128::MAX,
        },
{
    let mut acc: u128 = 1;
    let mut j: usize = 0;
    proof {
        vstd::arithmetic::power::lemma_pow0(10);
    }
    while j < e
        invariant
            0 <= j <= e,
            acc == pow(10, j as nat),
            acc >= 1,
        decreases e - j,
    {
        proof {
            vstd::arithmetic::power::lemma_pow1(10);
            vstd::arithmetic::power::lemma_pow_adds(10, j as nat, 1);
            assert(pow(10, 1) == 10);
            assert(pow(10, (j + 1) as nat) == acc * 10);
        }
        match acc.checked_mul(10) {
            Some(next) => {
                acc = next;
                j = j + 1;
            },
            None => {
                proof {
                    if (j + 1) as nat <= e as nat {
                        vstd::arithmetic::power::lemma_pow_increases(
                            10,
                            (j + 1) as nat,
                            e as nat,
                        );
                    }
                }
                return None;
            },
        }
    }
    Some(acc)
}

} // verus!
