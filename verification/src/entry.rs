//! The operand being typed: a digit sequence and an optional decimal mark.

use vstd::prelude::*;
use vstd::arithmetic::power::pow;

use crate::digits::{all_digits, lemma_digits_val_nonneg, lemma_digits_val_prefix_le,
    pow10_checked, spec_digits_val};
use crate::value::{same_ratio, spec_reduce, CalcValue};

verus! {

/// The operand currently being entered, most significant digit first.
///
/// `decimal_index` is the count of digits typed before the decimal key was
/// pressed; 0 means no decimal point yet.
#[derive(Clone, Debug)]
pub struct SumVariable {
    pub var: Vec<i32>,
    pub decimal_index: i32,
}

impl SumVariable {
    /// Digits are single decimal digits, the mark lies within the sequence,
    /// and the sequence length fits the mark's type.
    pub open spec fn wf(self) -> bool {
        &&& all_digits(self.var@)
        &&& 0 <= self.decimal_index <= self.var@.len()
        &&& self.var@.len() <= i32::MAX
    }

    /// How many of the entered digits are fractional.
    ///
    /// A mark pressed as the last keystroke (no digits after it) scales by
    /// one, i.e. the entry still reads as an integer.
    pub open spec fn frac_count(self) -> nat {
        if 0 < self.decimal_index < self.var@.len() {
            (self.var@.len() - self.decimal_index) as nat
        } else {
            0
        }
    }

    /// The numerator of the entry's exact value.
    pub open spec fn entry_num(self) -> int {
        spec_digits_val(self.var@)
    }

    /// The denominator of the entry's exact value.
    pub open spec fn entry_den(self) -> int {
        pow(10, self.frac_count())
    }

    /// Both components of the entry's exact value fit the machine range.
    pub open spec fn spec_entry_fits(self) -> bool {
        self.entry_num() <= u128::MAX && self.entry_den() <= u128::MAX
    }

    /// The exact value the entry writes, in lowest terms.
    pub open spec fn spec_entry_value(self) -> CalcValue {
        spec_reduce(false, self.entry_num() as nat, self.entry_den() as nat)
    }

    /// An empty entry: no digits, no decimal mark.
    pub fn new() -> (r: SumVariable)
        ensures
            r.wf(),
            r.var@.len() == 0,
            r.decimal_index == 0,
    {
        let var: Vec<i32> = Vec::new();
        let decimal_index: i32 = 0;
        SumVariable { var, decimal_index }
    }

    /// Append one digit to the entry.
    pub fn push(&mut self, input: i32)
        requires
            old(self).wf(),
            0 <= input <= 9,
            old(self).var@.len() < i32::MAX,
        ensures
            final(self).wf(),
            final(self).var@ == old(self).var@.push(input),
            final(self).decimal_index == old(self).decimal_index,
    {
        self.var.push(input);
    }

    /// Record the decimal mark at the current digit count.
    ///
    /// A second press changes nothing and reports a duplicate, for the caller
    /// to signal.
    pub fn decimal(&mut self) -> (duplicate: bool)
        requires
            old(self).wf(),
        ensures
            final(self).wf(),
            final(self).var@ == old(self).var@,
            duplicate == (old(self).decimal_index != 0),
            final(self).decimal_index == if old(self).decimal_index == 0 {
                old(self).var@.len() as i32
            } else {
                old(self).decimal_index
            },
    {
        if self.decimal_index == 0 {
            let len: i32 = self.var.len() as i32;
            self.decimal_index = len;
            false
        } else {
            true
        }
    }

    /// Empty the digits and forget the decimal mark.
    pub fn clear(&mut self)
        ensures
            final(self).wf(),
            final(self).var@.len() == 0,
            final(self).decimal_index == 0,
    {
        self.decimal_index = 0;
        while self.var.len() > 0
            invariant
                self.decimal_index == 0,
            decreases self.var@.len(),
        {
            self.var.pop();
        }
    }

    /// The exact value the entry writes: the digits read as an integer,
    /// scaled down by ten for every digit after the decimal mark. The empty
    /// entry reads as zero. `None` when a magnitude exceeds the machine
    /// range.
    pub fn decode(&self) -> (r: Option<CalcValue>)
        requires
            self.wf(),
        ensures
            r is Some <==> self.spec_entry_fits(),
            match r {
                Some(v) => {
                    &&& v == self.spec_entry_value()
                    &&& v.wf()
                    &&& same_ratio(v.ratio_num(), v.ratio_den(), self.entry_num(), self.entry_den())
                },
                None => true,
            },
    {
        proof {
            lemma_digits_val_nonneg(self.var@);
            vstd::arithmetic::power::lemma_pow_positive(10, self.frac_count());
        }
        let mut acc: u128 = 0;
        let mut i: usize = 0;
        let n = self.var.len();
        proof {
            assert(self.var@.subrange(0, 0) =~= Seq::<i32>::empty());
        }
        while i < n
            invariant
                self.wf(),
                0 <= i <= n,
                n == self.var@.len(),
                acc == spec_digits_val(self.var@.subrange(0, i as int)),
            decreases n - i,
        {
            let d = self.var[i];
            proof {
                let pre = self.var@.subrange(0, i as int);
                let post = self.var@.subrange(0, i + 1);
                assert(post.drop_last() =~= pre);
                assert(post.last() == self.var@[i as int]);
                assert(all_digits(pre));
                lemma_digits_val_nonneg(pre);
            }
            let shifted = match acc.checked_mul(10) {
                Some(x) => x,
                None => {
                    proof {
                        lemma_digits_val_prefix_le(self.var@, i + 1);
                    }
                    return None;
                },
            };
            let next = match shifted.checked_add(d as u128) {
                Some(x) => x,
                None => {
                    proof {
                        lemma_digits_val_prefix_le(self.var@, i + 1);
                    }
                    return None;
                },
            };
            acc = next;
            i = i + 1;
        }
        proof {
            assert(self.var@.subrange(0, n as int) =~= self.var@);
        }
        let frac: usize = if 0 < self.decimal_index && (self.decimal_index as usize) < n {
            n - self.decimal_index as usize
        } else {
            0
        };
        proof {
            assert(frac as nat == self.frac_count());
        }
        let den = match pow10_checked(frac) {
            Some(p) => p,
            None => {
                return None;
            },
        };
        Some(CalcValue::from_ratio(false, acc, den))
    }
}

} // verus!
