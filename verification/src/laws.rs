//! The laws the calculator keeps, stated over the same spec functions its
//! contracts use.

use vstd::prelude::*;

use crate::entry::SumVariable;
use crate::ops::{spec_combine_value, spec_flex_value, spec_zero_value};
use crate::value::{spec_add_fits, spec_add_value, spec_div_value, spec_mul_fits, spec_mul_value,
    CalcValue, FlexInput};

verus! {

/// First-operand seeding: folding an entry into a fresh (zero) total seeds
/// the total with the entry's value, whatever operator is pending — the
/// operator is not applied to a fresh total.
pub proof fn lemma_first_operand_seeding(sum: CalcValue, last_op: u32, e: CalcValue)
    requires
        sum.spec_is_zero(),
    ensures
        spec_combine_value(sum, last_op, e) == e,
{
}

/// Sequential operator chaining: on a non-fresh total, an operator key folds
/// the entry with the operator pending from before it, and the operator just
/// pressed governs the next fold. Two steps compose: with addition pending,
/// an entry and a multiply press fold by addition; the next entry and an
/// equals press fold that result by multiplication.
pub proof fn lemma_operator_chaining(sum: CalcValue, e1: CalcValue, e2: CalcValue)
    requires
        !sum.spec_is_zero(),
        !spec_add_value(sum, e1).spec_is_zero(),
    ensures
        spec_combine_value(sum, 1, e1) == spec_add_value(sum, e1),
        spec_combine_value(spec_combine_value(sum, 1, e1), 3, e2) == spec_mul_value(
            spec_add_value(sum, e1),
            e2,
        ),
{
}

/// The empty entry decodes to zero, and always fits the machine range.
pub proof fn lemma_empty_entry_decodes_zero(v: SumVariable)
    requires
        v.var@.len() == 0,
    ensures
        v.spec_entry_value() == spec_zero_value(),
        v.spec_entry_fits(),
{
    assert(v.entry_num() == 0);
    assert(v.frac_count() == 0);
    vstd::arithmetic::power::lemma_pow0(10);
    assert(v.entry_den() == 1);
}

/// Duplicate decimal is a no-op on data, signaled separately: after a first
/// decimal press on a non-empty entry the mark is set, so a second press —
/// each press related to its pre-state exactly as `SumVariable::decimal`
/// promises — keeps the digits and the first-set mark, and only reports the
/// duplicate.
pub proof fn lemma_duplicate_decimal(
    v0: SumVariable,
    v1: SumVariable,
    dup1: bool,
    v2: SumVariable,
    dup2: bool,
)
    requires
        v0.wf(),
        v0.var@.len() >= 1,
        v0.decimal_index == 0,
        v1.var@ == v0.var@,
        v1.decimal_index == (if v0.decimal_index == 0 {
            v0.var@.len() as i32
        } else {
            v0.decimal_index
        }),
        dup1 == (v0.decimal_index != 0),
        v2.var@ == v1.var@,
        v2.decimal_index == (if v1.decimal_index == 0 {
            v1.var@.len() as i32
        } else {
            v1.decimal_index
        }),
        dup2 == (v1.decimal_index != 0),
    ensures
        !dup1,
        dup2,
        v2.decimal_index == v1.decimal_index,
        v2.var@ == v0.var@,
        v1.decimal_index == v0.var@.len() as i32,
{
}

/// Cross-numeric seeding: two inputs that stand for the same ratio normalize
/// to the identical value, so an unsigned-integer literal and the equal
/// exact value seed indistinguishable totals.
pub proof fn lemma_cross_numeric_seeding<T1: FlexInput, T2: FlexInput>(x: T1, y: T2)
    requires
        x.flex_num() == y.flex_num(),
        x.flex_den() == y.flex_den(),
    ensures
        spec_flex_value(x) == spec_flex_value(y),
{
}

/// The four operations accept any accepted numeric type and normalize
/// identically: their results depend on an input only through the value it
/// normalizes to.
pub proof fn lemma_ops_normalize_identically<T1: FlexInput, T2: FlexInput>(
    sum: CalcValue,
    x: T1,
    y: T2,
)
    requires
        x.flex_num() == y.flex_num(),
        x.flex_den() == y.flex_den(),
    ensures
        spec_add_value(sum, spec_flex_value(x)) == spec_add_value(sum, spec_flex_value(y)),
        spec_add_value(sum, crate::value::spec_neg_value(spec_flex_value(x))) == spec_add_value(
            sum,
            crate::value::spec_neg_value(spec_flex_value(y)),
        ),
        spec_mul_value(sum, spec_flex_value(x)) == spec_mul_value(sum, spec_flex_value(y)),
        spec_div_value(sum, spec_flex_value(x)) == spec_div_value(sum, spec_flex_value(y)),
{
    lemma_cross_numeric_seeding(x, y);
}

/// Addition of a value and its negation gives back zero: folding an entry in
/// and folding it out returns the canonical fresh total.
pub proof fn lemma_add_sub_round_trip(e: CalcValue)
    requires
        e.wf(),
        spec_add_fits(e, crate::value::spec_neg_value(e)),
    ensures
        spec_add_value(e, crate::value::spec_neg_value(e)) == spec_zero_value(),
{
    let m = crate::value::spec_neg_value(e);
    assert(e.num * m.den == m.num * e.den);
}

} // verus!
