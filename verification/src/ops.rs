//! The running total, the pending operator, and the combine rule that folds
//! a closed entry into the total.

use vstd::prelude::*;

use crate::entry::SumVariable;
use crate::value::{same_ratio, spec_add_fits, spec_add_value, spec_div_fits, spec_div_value,
    spec_mag, spec_mul_fits, spec_mul_value, spec_neg_value, spec_reduce, CalcValue, FlexInput};

verus! {

/// Shared bookkeeping of the key dispatcher: the operation requested by the
/// current key press (`index`), the operator pending from an earlier press
/// (`last_op`), and two cosmetic counters owned by the scene (current screen
/// color, entities spawned after startup).
#[derive(Clone, Debug)]
pub struct OpIndex {
    pub index: u32,
    pub last_op: u32,
    pub screen_color: u32,
    pub entities: u32,
}

impl OpIndex {
    /// Startup state. The scene the dispatcher serves spawns nine entities
    /// before any lookup happens, so the count starts there.
    pub fn new() -> (r: OpIndex)
        ensures
            r.index == 0,
            r.last_op == 0,
            r.screen_color == 0,
            r.entities == 9,
    {
        let (index, last_op, screen_color, entities): (u32, u32, u32, u32) = (0, 0, 0, 9);
        OpIndex { index, last_op, screen_color, entities }
    }

    /// Record one more spawned entity.
    pub fn add_entity(&mut self)
        requires
            old(self).entities < u32::MAX,
        ensures
            final(self).entities == old(self).entities + 1,
            final(self).index == old(self).index,
            final(self).last_op == old(self).last_op,
            final(self).screen_color == old(self).screen_color,
    {
        self.entities = self.entities + 1;
    }
}

/// The operation a key press requests.
#[derive(Clone, Copy, Debug, PartialEq, Eq, Structural)]
pub enum CalcOperations {
    Init,
    Clear,
    Add,
    Subtract,
    Multiply,
    Divide,
    Sum,
}

impl CalcOperations {
    /// The operation each dispatch index stands for.
    pub open spec fn spec_from_index(index: u32) -> Option<CalcOperations> {
        if index == 0 {
            Some(CalcOperations::Init)
        } else if index == 1 {
            Some(CalcOperations::Clear)
        } else if index == 2 {
            Some(CalcOperations::Add)
        } else if index == 3 {
            Some(CalcOperations::Subtract)
        } else if index == 4 {
            Some(CalcOperations::Multiply)
        } else if index == 5 {
            Some(CalcOperations::Divide)
        } else if index == 6 {
            Some(CalcOperations::Sum)
        } else {
            None
        }
    }

    /// Decode a dispatch index; indices past the table give `None`.
    pub fn from_index(index: u32) -> (r: Option<CalcOperations>)
        ensures
            r == Self::spec_from_index(index),
    {
        match index {
            0 => Some(CalcOperations::Init),
            1 => Some(CalcOperations::Clear),
            2 => Some(CalcOperations::Add),
            3 => Some(CalcOperations::Subtract),
            4 => Some(CalcOperations::Multiply),
            5 => Some(CalcOperations::Divide),
            6 => Some(CalcOperations::Sum),
            _ => None,
        }
    }
}

/// The exact value a seeding input normalizes to.
pub open spec fn spec_flex_value<T: FlexInput>(input: T) -> CalcValue {
    spec_reduce(input.flex_num() < 0, spec_mag(input.flex_num()), spec_mag(input.flex_den()))
}

/// The canonical zero value.
pub open spec fn spec_zero_value() -> CalcValue {
    CalcValue { neg: false, num: 0, den: 1 }
}

/// An input that stands for an integer (denominator one) normalizes to that
/// integer over one, in the fields a caller can compute with.
pub proof fn lemma_flex_value_int<T: FlexInput>(input: T)
    requires
        input.flex_den() == 1,
        spec_mag(input.flex_num()) <= u128::MAX,
    ensures
        spec_flex_value(input) == (CalcValue {
            neg: input.flex_num() < 0 && input.flex_num() != 0,
            num: spec_mag(input.flex_num()) as u128,
            den: 1,
        }),
        spec_flex_value(input).wf(),
        spec_flex_value(input).ratio_num() == input.flex_num(),
        spec_flex_value(input).ratio_den() == 1,
{
    crate::value::lemma_int_reduce_form(input.flex_num());
    crate::value::lemma_gcd_one_right(spec_mag(input.flex_num()));
}

/// The running total of the calculator.
#[derive(Clone, Copy, Debug, PartialEq, Eq, Structural)]
pub struct SumCurrent {
    pub sum: CalcValue,
}

/// The pending operator's exact result on an operand value stays within
/// machine magnitudes; a fresh (zero) total is only seeded, so it always
/// fits. Division additionally needs a nonzero operand.
pub open spec fn spec_combine_value_fits(sum: CalcValue, last_op: u32, e: CalcValue) -> bool {
    !sum.spec_is_zero() ==> {
        if last_op == 1 {
            spec_add_fits(sum, e)
        } else if last_op == 2 {
            spec_add_fits(sum, spec_neg_value(e))
        } else if last_op == 3 {
            spec_mul_fits(sum, e)
        } else if last_op == 4 {
            !e.spec_is_zero() && spec_div_fits(sum, e)
        } else {
            true
        }
    }
}

/// The combine rule on an operand value: a fresh (zero) total is seeded with
/// the operand, whatever operator is pending; otherwise the pending operator
/// folds the operand into the total, and no pending operator leaves the
/// total alone.
pub open spec fn spec_combine_value(sum: CalcValue, last_op: u32, e: CalcValue) -> CalcValue {
    if sum.spec_is_zero() {
        e
    } else if last_op == 1 {
        spec_add_value(sum, e)
    } else if last_op == 2 {
        spec_add_value(sum, spec_neg_value(e))
    } else if last_op == 3 {
        spec_mul_value(sum, e)
    } else if last_op == 4 {
        spec_div_value(sum, e)
    } else {
        sum
    }
}

/// The combine step stays within machine magnitudes: the entry decodes, and
/// the pending operator's exact result does not overflow.
pub open spec fn spec_combine_fits(sum: CalcValue, last_op: u32, var: SumVariable) -> bool {
    &&& var.spec_entry_fits()
    &&& spec_combine_value_fits(sum, last_op, var.spec_entry_value())
}

/// The combine rule applied to the entry's decoded value.
pub open spec fn spec_combine(sum: CalcValue, last_op: u32, var: SumVariable) -> CalcValue {
    spec_combine_value(sum, last_op, var.spec_entry_value())
}

impl SumCurrent {
    /// A fresh total: exactly zero.
    pub fn new() -> (r: SumCurrent)
        ensures
            r.sum == spec_zero_value(),
            r.sum.wf(),
    {
        proof {
            crate::value::lemma_gcd_one_right(0);
        }
        SumCurrent { sum: CalcValue::from_u128(0) }
    }

    /// A total seeded from any accepted numeric input, normalized to the
    /// exact value type.
    pub fn new_from<T: FlexInput>(input: T) -> (r: SumCurrent)
        requires
            input.flex_inv(),
        ensures
            r.sum == spec_flex_value(input),
            r.sum.wf(),
    {
        SumCurrent { sum: input.to_value() }
    }

    /// Reset a total to zero.
    pub fn zero(sum: &mut SumCurrent)
        ensures
            final(sum).sum == spec_zero_value(),
            final(sum).sum.wf(),
    {
        proof {
            crate::value::lemma_gcd_one_right(0);
        }
        sum.sum = CalcValue::from_u128(0);
    }

    /// Seed the total from the entry when the total is still fresh (zero);
    /// a non-fresh total is left alone. An entry beyond the machine range
    /// leaves the fresh total at zero.
    pub fn var_to_sum_if_sum_zero(var: &SumVariable, sum: &mut SumCurrent)
        requires
            var.wf(),
            old(sum).sum.wf(),
        ensures
            final(sum).sum.wf(),
            !old(sum).sum.spec_is_zero() ==> *final(sum) == *old(sum),
            old(sum).sum.spec_is_zero() && var.spec_entry_fits() ==> final(sum).sum
                == var.spec_entry_value(),
            old(sum).sum.spec_is_zero() && !var.spec_entry_fits() ==> *final(sum) == *old(sum),
    {
        if sum.sum.is_zero() {
            match var.decode() {
                Some(v) => {
                    sum.sum = v;
                },
                None => {},
            }
        }
    }

    /// Fold the closed entry into the total along the pending operator
    /// (`op.last_op`), by the combine rule.
    ///
    /// Returns `false` when the exact result cannot be carried — the entry or
    /// the result exceeds the machine range, or a division by a zero entry
    /// was requested — in which case the total takes the same recovery as a
    /// display overload: it is reset to zero.
    pub fn update_sum(var: &SumVariable, sum: &mut SumCurrent, op: &OpIndex) -> (ok: bool)
        requires
            var.wf(),
            old(sum).sum.wf(),
        ensures
            final(sum).sum.wf(),
            ok == spec_combine_fits(old(sum).sum, op.last_op, *var),
            ok ==> final(sum).sum == spec_combine(old(sum).sum, op.last_op, *var),
            !ok ==> final(sum).sum == spec_zero_value(),
    {
        let e = match var.decode() {
            Some(v) => v,
            None => {
                SumCurrent::zero(sum);
                return false;
            },
        };
        if sum.sum.is_zero() {
            sum.sum = e;
            return true;
        }
        if op.last_op == 1 {
            match sum.sum.try_add(e) {
                Some(v) => {
                    sum.sum = v;
                    true
                },
                None => {
                    SumCurrent::zero(sum);
                    false
                },
            }
        } else if op.last_op == 2 {
            match sum.sum.try_sub(e) {
                Some(v) => {
                    sum.sum = v;
                    true
                },
                None => {
                    SumCurrent::zero(sum);
                    false
                },
            }
        } else if op.last_op == 3 {
            match sum.sum.try_mul(e) {
                Some(v) => {
                    sum.sum = v;
                    true
                },
                None => {
                    SumCurrent::zero(sum);
                    false
                },
            }
        } else if op.last_op == 4 {
            match sum.sum.try_div(e) {
                Some(v) => {
                    sum.sum = v;
                    true
                },
                None => {
                    SumCurrent::zero(sum);
                    false
                },
            }
        } else {
            true
        }
    }

    /// The total plus an input, as a new total. The total itself is read,
    /// not changed.
    pub fn add<T: FlexInput>(&mut self, input: T) -> (r: SumCurrent)
        requires
            old(self).sum.wf(),
            input.flex_inv(),
            spec_add_fits(old(self).sum, spec_flex_value(input)),
        ensures
            *final(self) == *old(self),
            r.sum == spec_add_value(old(self).sum, spec_flex_value(input)),
            r.sum.wf(),
            same_ratio(
                r.sum.ratio_num(),
                r.sum.ratio_den(),
                old(self).sum.ratio_num() * input.flex_den() + input.flex_num() * old(
                    self,
                ).sum.ratio_den(),
                old(self).sum.ratio_den() * input.flex_den(),
            ),
    {
        let v = input.to_value();
        let r = match self.sum.try_add(v) {
            Some(s) => SumCurrent { sum: s },
            None => vstd::pervasive::unreached(),
        };
        proof {
            let sn = old(self).sum.ratio_num();
            let sd = old(self).sum.ratio_den();
            crate::value::lemma_add_pair_subst(
                sn,
                sd,
                v.ratio_num(),
                v.ratio_den(),
                input.flex_num(),
                input.flex_den(),
            );
            assert(sd * v.ratio_den() != 0) by (nonlinear_arith)
                requires
                    sd >= 1,
                    v.ratio_den() >= 1,
            ;
            crate::value::lemma_ratio_trans(
                r.sum.ratio_num(),
                r.sum.ratio_den(),
                sn * v.ratio_den() + v.ratio_num() * sd,
                sd * v.ratio_den(),
                sn * input.flex_den() + input.flex_num() * sd,
                sd * input.flex_den(),
            );
        }
        r
    }

    /// The total minus an input, as a new total.
    pub fn subtract<T: FlexInput>(&mut self, input: T) -> (r: SumCurrent)
        requires
            old(self).sum.wf(),
            input.flex_inv(),
            spec_add_fits(old(self).sum, spec_neg_value(spec_flex_value(input))),
        ensures
            *final(self) == *old(self),
            r.sum == spec_add_value(old(self).sum, spec_neg_value(spec_flex_value(input))),
            r.sum.wf(),
            same_ratio(
                r.sum.ratio_num(),
                r.sum.ratio_den(),
                old(self).sum.ratio_num() * input.flex_den() - input.flex_num() * old(
                    self,
                ).sum.ratio_den(),
                old(self).sum.ratio_den() * input.flex_den(),
            ),
    {
        let v = input.to_value();
        let r = match self.sum.try_sub(v) {
            Some(s) => SumCurrent { sum: s },
            None => vstd::pervasive::unreached(),
        };
        proof {
            let sn = old(self).sum.ratio_num();
            let sd = old(self).sum.ratio_den();
            assert(same_ratio(-v.ratio_num(), v.ratio_den(), -input.flex_num(), input.flex_den()))
                by (nonlinear_arith)
                requires
                    v.ratio_num() * input.flex_den() == input.flex_num() * v.ratio_den(),
            ;
            crate::value::lemma_add_pair_subst(
                sn,
                sd,
                -v.ratio_num(),
                v.ratio_den(),
                -input.flex_num(),
                input.flex_den(),
            );
            assert(sn * v.ratio_den() + (-v.ratio_num()) * sd == sn * v.ratio_den()
                - v.ratio_num() * sd) by (nonlinear_arith);
            assert(sn * input.flex_den() + (-input.flex_num()) * sd == sn * input.flex_den()
                - input.flex_num() * sd) by (nonlinear_arith);
            assert(sd * v.ratio_den() != 0) by (nonlinear_arith)
                requires
                    sd >= 1,
                    v.ratio_den() >= 1,
            ;
            crate::value::lemma_ratio_trans(
                r.sum.ratio_num(),
                r.sum.ratio_den(),
                sn * v.ratio_den() - v.ratio_num() * sd,
                sd * v.ratio_den(),
                sn * input.flex_den() - input.flex_num() * sd,
                sd * input.flex_den(),
            );
        }
        r
    }

    /// The total times an input, as a new total.
    pub fn multiply<T: FlexInput>(&mut self, input: T) -> (r: SumCurrent)
        requires
            old(self).sum.wf(),
            input.flex_inv(),
            spec_mul_fits(old(self).sum, spec_flex_value(input)),
        ensures
            *final(self) == *old(self),
            r.sum == spec_mul_value(old(self).sum, spec_flex_value(input)),
            r.sum.wf(),
            same_ratio(
                r.sum.ratio_num(),
                r.sum.ratio_den(),
                old(self).sum.ratio_num() * input.flex_num(),
                old(self).sum.ratio_den() * input.flex_den(),
            ),
    {
        let v = input.to_value();
        let r = match self.sum.try_mul(v) {
            Some(s) => SumCurrent { sum: s },
            None => vstd::pervasive::unreached(),
        };
        proof {
            let sn = old(self).sum.ratio_num();
            let sd = old(self).sum.ratio_den();
            crate::value::lemma_mul_pair_subst(
                sn,
                sd,
                v.ratio_num(),
                v.ratio_den(),
                input.flex_num(),
                input.flex_den(),
            );
            assert(sd * v.ratio_den() != 0) by (nonlinear_arith)
                requires
                    sd >= 1,
                    v.ratio_den() >= 1,
            ;
            crate::value::lemma_ratio_trans(
                r.sum.ratio_num(),
                r.sum.ratio_den(),
                sn * v.ratio_num(),
                sd * v.ratio_den(),
                sn * input.flex_num(),
                sd * input.flex_den(),
            );
        }
        r
    }

    /// The total divided by an input, as a new total. A zero divisor is
    /// excluded here: the caller must not request it.
    pub fn divide<T: FlexInput>(&mut self, input: T) -> (r: SumCurrent)
        requires
            old(self).sum.wf(),
            input.flex_inv(),
            !spec_flex_value(input).spec_is_zero(),
            spec_div_fits(old(self).sum, spec_flex_value(input)),
        ensures
            *final(self) == *old(self),
            r.sum == spec_div_value(old(self).sum, spec_flex_value(input)),
            r.sum.wf(),
            same_ratio(
                r.sum.ratio_num(),
                r.sum.ratio_den(),
                old(self).sum.ratio_num() * input.flex_den(),
                old(self).sum.ratio_den() * input.flex_num(),
            ),
    {
        let v = input.to_value();
        let r = match self.sum.try_div(v) {
            Some(s) => SumCurrent { sum: s },
            None => vstd::pervasive::unreached(),
        };
        proof {
            let sn = old(self).sum.ratio_num();
            let sd = old(self).sum.ratio_den();
            crate::value::lemma_mul_pair_subst(
                sn,
                sd,
                v.ratio_num(),
                v.ratio_den(),
                input.flex_num(),
                input.flex_den(),
            );
            assert(sd * v.ratio_num() != 0) by (nonlinear_arith)
                requires
                    sd >= 1,
                    v.ratio_num() != 0,
            ;
            crate::value::lemma_ratio_trans(
                r.sum.ratio_num(),
                r.sum.ratio_den(),
                sn * v.ratio_den(),
                sd * v.ratio_num(),
                sn * input.flex_den(),
                sd * input.flex_num(),
            );
        }
        r
    }
}

/// Interpret the operation that `op.index` requests, against the current
/// entry and total.
///
/// By the combine rule: `Init` and `Sum` fold the entry into the total with
/// the pending operator and leave the entry for redisplay; `Clear` resets
/// both total and entry; an operator key first folds the entry with the
/// *previously* pending operator, then records itself as pending and clears
/// the entry. An index past the table changes nothing.
///
/// Returns `false` exactly when a requested combine step could not be
/// carried (machine range, or division by a zero entry); the total is then
/// reset to zero.
pub fn sum_calc_operations(op: &mut OpIndex, var: &mut SumVariable, sum: &mut SumCurrent) -> (ok:
    bool)
    requires
        old(var).wf(),
        old(sum).sum.wf(),
    ensures
        final(var).wf(),
        final(sum).sum.wf(),
        final(op).index == old(op).index,
        final(op).screen_color == old(op).screen_color,
        final(op).entities == old(op).entities,
        // Init and Sum: combine, leave entry and pending operator alone.
        old(op).index == 0 || old(op).index == 6 ==> {
            &&& final(op).last_op == old(op).last_op
            &&& *final(var) == *old(var)
            &&& ok == spec_combine_fits(old(sum).sum, old(op).last_op, *old(var))
            &&& (ok ==> final(sum).sum == spec_combine(old(sum).sum, old(op).last_op, *old(var)))
            &&& (!ok ==> final(sum).sum == spec_zero_value())
        },
        // Clear: reset both.
        old(op).index == 1 ==> {
            &&& final(op).last_op == old(op).last_op
            &&& final(sum).sum == spec_zero_value()
            &&& final(var).var@.len() == 0
            &&& final(var).decimal_index == 0
            &&& ok
        },
        // Operator keys: combine with the previous operator, record the new
        // one, clear the entry.
        2 <= old(op).index <= 5 ==> {
            &&& final(op).last_op == old(op).index - 1
            &&& final(var).var@.len() == 0
            &&& final(var).decimal_index == 0
            &&& ok == spec_combine_fits(old(sum).sum, old(op).last_op, *old(var))
            &&& (ok ==> final(sum).sum == spec_combine(old(sum).sum, old(op).last_op, *old(var)))
            &&& (!ok ==> final(sum).sum == spec_zero_value())
        },
        // Past the table: nothing happens.
        old(op).index > 6 ==> {
            &&& final(op).last_op == old(op).last_op
            &&& *final(var) == *old(var)
            &&& *final(sum) == *old(sum)
            &&& ok
        },
{
    match CalcOperations::from_index(op.index) {
        Some(CalcOperations::Init) => SumCurrent::update_sum(var, sum, op),
        Some(CalcOperations::Clear) => {
            SumCurrent::zero(sum);
            var.clear();
            true
        },
        Some(CalcOperations::Add) => {
            let ok = SumCurrent::update_sum(var, sum, op);
            op.last_op = 1;
            var.clear();
            ok
        },
        Some(CalcOperations::Subtract) => {
            let ok = SumCurrent::update_sum(var, sum, op);
            op.last_op = 2;
            var.clear();
            ok
        },
        Some(CalcOperations::Multiply) => {
            let ok = SumCurrent::update_sum(var, sum, op);
            op.last_op = 3;
            var.clear();
            ok
        },
        Some(CalcOperations::Divide) => {
            let ok = SumCurrent::update_sum(var, sum, op);
            op.last_op = 4;
            var.clear();
            ok
        },
        Some(CalcOperations::Sum) => SumCurrent::update_sum(var, sum, op),
        None => true,
    }
}

} // verus!
