use calc_sim::CalcButtons;
use calc_sim::CalcOperations;
use calc_sim::CalcValue;
use calc_sim::CountdownCycle;
use calc_sim::CurrentMeshColor;
use calc_sim::MeshColor;
use calc_sim::OpIndex;
use calc_sim::ScreenAlbedoState;
use calc_sim::SumCurrent;
use calc_sim::SumVariable;
use calc_sim::cycle_screen_albedo;
use calc_sim::dim_while_clicked;
use calc_sim::fire_button;
use calc_sim::press_button;
use calc_sim::screen_albedo;
use calc_sim::sum_calc_operations;
use calc_sim::update_sum_text;
use calc_sim::update_var_text;

fn fresh_state() -> (OpIndex, SumVariable, SumCurrent, ScreenAlbedoState) {
    (OpIndex::new(), SumVariable::new(), SumCurrent::new(), ScreenAlbedoState::new())
}

#[test]
fn decode_without_decimal() {
    let mut var = SumVariable::new();
    var.push(1);
    var.push(2);
    var.push(3);
    assert_eq!(var.decode(), Some(CalcValue::from_u128(123)));

    let empty = SumVariable::new();
    assert_eq!(empty.decode(), Some(CalcValue::from_u128(0)));
}

#[test]
fn decode_with_decimal() {
    let mut var = SumVariable::new();
    var.push(1);
    var.push(2);
    let duplicate = var.decimal();
    assert!(!duplicate);
    var.push(5);
    assert_eq!(var.var, vec![1, 2, 5]);
    assert_eq!(var.decimal_index, 2);
    // 12.5 in lowest terms is 25/2.
    assert_eq!(var.decode(), Some(CalcValue::from_ratio(false, 125, 10)));
    assert_eq!(var.decode(), Some(CalcValue::from_ratio(false, 25, 2)));
}

#[test]
fn decode_mark_as_last_keystroke_scales_by_one() {
    let mut var = SumVariable::new();
    var.push(5);
    var.decimal();
    assert_eq!(var.decimal_index, 1);
    assert_eq!(var.decode(), Some(CalcValue::from_u128(5)));
}

#[test]
fn first_operand_seeding() {
    let (mut op, mut var, mut sum, _albedo) = fresh_state();
    var.push(7);
    op.index = 2;
    let ok = sum_calc_operations(&mut op, &mut var, &mut sum);
    assert!(ok);
    assert_eq!(sum.sum, CalcValue::from_u128(7));
    assert_eq!(op.last_op, 1);
    assert!(var.var.is_empty());
}

#[test]
fn sequential_operator_chaining() {
    let (mut op, mut var, mut sum, _albedo) = fresh_state();
    // 7, Add: seeds the total.
    var.push(7);
    op.index = 2;
    assert!(sum_calc_operations(&mut op, &mut var, &mut sum));
    assert_eq!(sum.sum, CalcValue::from_u128(7));
    assert_eq!(op.last_op, 1);
    // 3, Multiply: the pending Add folds first.
    var.push(3);
    op.index = 4;
    assert!(sum_calc_operations(&mut op, &mut var, &mut sum));
    assert_eq!(sum.sum, CalcValue::from_u128(10));
    assert_eq!(op.last_op, 3);
    // 4, Equals: the pending Multiply folds.
    var.push(4);
    op.index = 6;
    assert!(sum_calc_operations(&mut op, &mut var, &mut sum));
    assert_eq!(sum.sum, CalcValue::from_u128(40));
    assert_eq!(op.last_op, 3);
}

#[test]
fn clear_resets_both() {
    let (mut op, mut var, mut sum, mut albedo) = fresh_state();
    var.push(9);
    var.decimal();
    var.push(1);
    op.index = 2;
    sum_calc_operations(&mut op, &mut var, &mut sum);
    var.push(3);
    let fx = press_button(&CalcButtons::Clear, &mut op, &mut var, &mut sum, &mut albedo);
    assert!(fx.click_animation);
    assert_eq!(sum.sum, CalcValue::from_u128(0));
    assert!(var.var.is_empty());
    assert_eq!(var.decimal_index, 0);
    assert_eq!(op.last_op, 0);
}

#[test]
fn duplicate_decimal_signals_without_changing_data() {
    let mut var = SumVariable::new();
    var.push(3);
    assert!(!var.decimal());
    let mark = var.decimal_index;
    let digits = var.var.clone();
    assert!(var.decimal());
    assert_eq!(var.decimal_index, mark);
    assert_eq!(var.var, digits);
    assert_eq!(var.decode(), Some(CalcValue::from_u128(3)));
}

#[test]
fn cross_numeric_seeding_round_trip() {
    let from_uint = SumCurrent::new_from(24u32);
    let from_value = SumCurrent::new_from(CalcValue::from_u128(24));
    let from_usize = SumCurrent::new_from(24usize);
    let from_int = SumCurrent::new_from(24i32);
    assert_eq!(from_uint.sum, from_value.sum);
    assert_eq!(from_uint.sum, from_usize.sum);
    assert_eq!(from_uint.sum, from_int.sum);

    let mut five = SumCurrent::new_from(CalcValue::from_u128(5));
    assert_eq!(five.add(2).sum, CalcValue::from_u128(7));
    let mut onetwenty = SumCurrent::new_from(CalcValue::from_u128(120));
    assert_eq!(onetwenty.divide(2).sum, CalcValue::from_u128(60));
    assert_eq!(onetwenty.multiply(24usize).sum, CalcValue::from_u128(2880));
}

#[test]
fn negative_totals_subtract_below_zero() {
    let (mut op, mut var, mut sum, _albedo) = fresh_state();
    var.push(5);
    op.index = 3;
    assert!(sum_calc_operations(&mut op, &mut var, &mut sum));
    assert_eq!(op.last_op, 2);
    var.push(1);
    var.push(2);
    op.index = 6;
    assert!(sum_calc_operations(&mut op, &mut var, &mut sum));
    // 5 - 12 = -7.
    assert_eq!(sum.sum, CalcValue::from_neg_u128(7));
}

#[test]
fn overload_display_contract() {
    let mut sum = SumCurrent::new_from(123456789u32);
    let mut var = SumVariable::new();
    var.push(1);
    let text = update_sum_text(&mut sum, &mut var);
    assert_eq!(text, "S: Overload");
    assert_eq!(sum.sum, CalcValue::from_u128(0));
    assert!(var.var.is_empty());
    assert_eq!(var.decimal_index, 0);
}

#[test]
fn sum_text_renders_fitting_values() {
    let mut sum = SumCurrent::new_from(CalcValue::from_ratio(false, 125, 10));
    let mut var = SumVariable::new();
    assert_eq!(update_sum_text(&mut sum, &mut var), "Sum: 12.5");
    assert_eq!(sum.sum, CalcValue::from_ratio(false, 25, 2));

    let mut eight_wide = SumCurrent::new_from(12345678u32);
    assert_eq!(update_sum_text(&mut eight_wide, &mut var), "Sum: 12345678");

    let mut zero = SumCurrent::new();
    assert_eq!(update_sum_text(&mut zero, &mut var), "Sum: 0");

    let mut negative = SumCurrent::new_from(-7i32);
    assert_eq!(update_sum_text(&mut negative, &mut var), "Sum: -7");

    let mut small = SumCurrent::new_from(CalcValue::from_ratio(false, 5, 100));
    assert_eq!(update_sum_text(&mut small, &mut var), "Sum: 0.05");
}

#[test]
fn sum_text_overloads_on_nonterminating_values() {
    // 1 / 3 has no finite decimal form; the display takes the overload path.
    let (mut op, mut var, mut sum, _albedo) = fresh_state();
    var.push(1);
    op.index = 5;
    assert!(sum_calc_operations(&mut op, &mut var, &mut sum));
    assert_eq!(op.last_op, 4);
    var.push(3);
    op.index = 6;
    assert!(sum_calc_operations(&mut op, &mut var, &mut sum));
    assert_eq!(sum.sum, CalcValue::from_ratio(false, 1, 3));
    let text = update_sum_text(&mut sum, &mut var);
    assert_eq!(text, "S: Overload");
    assert_eq!(sum.sum, CalcValue::from_u128(0));
}

#[test]
fn var_text_renders_and_overloads() {
    let mut sum = SumCurrent::new();
    let mut var = SumVariable::new();
    var.push(1);
    var.push(2);
    var.decimal();
    var.push(5);
    assert_eq!(update_var_text(&mut sum, &mut var), "Input: 12.5");

    for _ in 0..7 {
        var.push(9);
    }
    let text = update_var_text(&mut sum, &mut var);
    assert_eq!(text, "I: Overload");
    assert!(var.var.is_empty());
    assert_eq!(var.decimal_index, 0);

    let empty_sum = update_var_text(&mut sum, &mut var);
    assert_eq!(empty_sum, "Input: 0");

    // A mark as the last keystroke scales by one: "5." reads as 5.
    var.push(5);
    var.decimal();
    assert_eq!(update_var_text(&mut sum, &mut var), "Input: 5");
}

#[test]
fn divide_by_zero_entry_resets_total() {
    let (mut op, mut var, mut sum, _albedo) = fresh_state();
    var.push(7);
    op.index = 5;
    assert!(sum_calc_operations(&mut op, &mut var, &mut sum));
    assert_eq!(sum.sum, CalcValue::from_u128(7));
    assert_eq!(op.last_op, 4);
    // Equals with an empty entry divides by zero: the total resets.
    op.index = 6;
    let ok = sum_calc_operations(&mut op, &mut var, &mut sum);
    assert!(!ok);
    assert_eq!(sum.sum, CalcValue::from_u128(0));
}

#[test]
fn oversized_entry_resets_total() {
    let (mut op, mut var, mut sum, _albedo) = fresh_state();
    // Forty-one nines exceed any machine magnitude.
    for _ in 0..41 {
        var.push(9);
    }
    op.index = 2;
    let ok = sum_calc_operations(&mut op, &mut var, &mut sum);
    assert!(!ok);
    assert_eq!(sum.sum, CalcValue::from_u128(0));
}

#[test]
fn leading_zeros_decode_like_the_plain_number() {
    let mut var = SumVariable::new();
    var.push(0);
    var.push(0);
    var.push(1);
    assert_eq!(var.decode(), Some(CalcValue::from_u128(1)));
}

#[test]
fn operations_decode_table() {
    assert!(matches!(CalcOperations::from_index(0), Some(CalcOperations::Init)));
    assert!(matches!(CalcOperations::from_index(1), Some(CalcOperations::Clear)));
    assert!(matches!(CalcOperations::from_index(2), Some(CalcOperations::Add)));
    assert!(matches!(CalcOperations::from_index(3), Some(CalcOperations::Subtract)));
    assert!(matches!(CalcOperations::from_index(4), Some(CalcOperations::Multiply)));
    assert!(matches!(CalcOperations::from_index(5), Some(CalcOperations::Divide)));
    assert!(matches!(CalcOperations::from_index(6), Some(CalcOperations::Sum)));
    assert!(CalcOperations::from_index(7).is_none());
}

#[test]
fn buttons_decode_against_entity_count() {
    let op = OpIndex::new();
    assert_eq!(op.entities, 9);
    assert_eq!(CalcButtons::from_index(&op, 49), Some(CalcButtons::Sum));
    assert_eq!(CalcButtons::from_index(&op, 55), Some(CalcButtons::Clear));
    assert_eq!(CalcButtons::from_index(&op, 57), Some(CalcButtons::Decimal));
    assert_eq!(CalcButtons::from_index(&op, 50), Some(CalcButtons::Add));
    assert_eq!(CalcButtons::from_index(&op, 56), Some(CalcButtons::Num0));
    assert_eq!(CalcButtons::from_index(&op, 69), Some(CalcButtons::Num9));
    assert_eq!(CalcButtons::from_index(&op, 46), Some(CalcButtons::NoneButtonBody));
    assert_eq!(CalcButtons::from_index(&op, 71), Some(CalcButtons::NoneButtonScreen));
    assert_eq!(CalcButtons::from_index(&op, 72), Some(CalcButtons::NoneButtonLightPanel));
    assert_eq!(CalcButtons::from_index(&op, 5), None);
    assert_eq!(CalcButtons::from_index(&op, 100), None);
}

#[test]
fn pressing_buttons_drives_the_calculator() {
    let (mut op, mut var, mut sum, mut albedo) = fresh_state();
    // 1 2 . 5 + 2 . 5 = shows 15.
    for b in [
        CalcButtons::Num1,
        CalcButtons::Num2,
        CalcButtons::Decimal,
        CalcButtons::Num5,
        CalcButtons::Add,
        CalcButtons::Num2,
        CalcButtons::Decimal,
        CalcButtons::Num5,
        CalcButtons::Sum,
    ] {
        let fx = press_button(&b, &mut op, &mut var, &mut sum, &mut albedo);
        assert!(fx.click_animation);
        assert!(fx.combine_ok);
    }
    assert_eq!(sum.sum, CalcValue::from_u128(15));
}

#[test]
fn digit_after_equals_starts_a_new_operand() {
    let (mut op, mut var, mut sum, mut albedo) = fresh_state();
    for b in [CalcButtons::Num7, CalcButtons::Add, CalcButtons::Num3, CalcButtons::Sum] {
        press_button(&b, &mut op, &mut var, &mut sum, &mut albedo);
    }
    assert_eq!(sum.sum, CalcValue::from_u128(10));
    // The leftover entry "3" must not leak into the next operand.
    press_button(&CalcButtons::Num2, &mut op, &mut var, &mut sum, &mut albedo);
    assert_eq!(var.var, vec![2]);
    assert_eq!(op.index, 0);
}

#[test]
fn decimal_on_empty_entry_reads_as_zero_point() {
    let (mut op, mut var, mut sum, mut albedo) = fresh_state();
    let fx = press_button(&CalcButtons::Decimal, &mut op, &mut var, &mut sum, &mut albedo);
    assert!(!fx.duplicate_decimal);
    assert_eq!(var.var, vec![0]);
    assert_eq!(var.decimal_index, 1);
    let fx2 = press_button(&CalcButtons::Num5, &mut op, &mut var, &mut sum, &mut albedo);
    assert!(fx2.click_animation);
    assert_eq!(var.decode(), Some(CalcValue::from_ratio(false, 5, 10)));
}

#[test]
fn ambient_buttons_touch_only_cosmetics() {
    let (mut op, mut var, mut sum, mut albedo) = fresh_state();
    let fx = press_button(&CalcButtons::NoneButtonBody, &mut op, &mut var, &mut sum, &mut albedo);
    assert!(fx.body_animation && !fx.click_animation);

    let before = op.screen_color;
    let fx2 = press_button(
        &CalcButtons::NoneButtonScreen,
        &mut op,
        &mut var,
        &mut sum,
        &mut albedo,
    );
    assert!(!fx2.click_animation);
    assert_eq!(op.screen_color, before + 1);
    assert_eq!(albedo.state, 0);

    press_button(&CalcButtons::NoneButtonLightPanel, &mut op, &mut var, &mut sum, &mut albedo);
    assert_eq!(albedo.state, 1);

    // Stepping past the last display color wraps back to the first.
    op.screen_color = 4;
    press_button(&CalcButtons::NoneButtonScreen, &mut op, &mut var, &mut sum, &mut albedo);
    assert_eq!(op.screen_color, 0);

    fire_button(&CalcButtons::NoneButtonLightPanel, &mut albedo);
    assert_eq!(albedo.state, 2);
    fire_button(&CalcButtons::Num1, &mut albedo);
    assert_eq!(albedo.state, 2);

    assert_eq!(sum.sum, CalcValue::from_u128(0));
    assert!(var.var.is_empty());
}

#[test]
fn screen_albedo_cycle_runs_its_laps() {
    let mut countdown = CountdownCycle::new();
    let mut albedo = ScreenAlbedoState::new();
    assert_eq!(countdown.loop_count, 5);
    assert!(!countdown.is_active);

    let reset = cycle_screen_albedo(&mut countdown, &mut albedo);
    assert!(reset);
    assert!(countdown.is_active);
    assert_eq!(albedo.state, 0);

    let mut op = OpIndex::new();
    // A frame without a finished timer changes nothing.
    assert!(!screen_albedo(&mut countdown, &mut op, false));
    assert_eq!(countdown.current_count, 0);
    // Five finished laps step the color each time, then go inactive.
    for lap in 1..=5u32 {
        let again = screen_albedo(&mut countdown, &mut op, true);
        assert_eq!(countdown.current_count, lap);
        assert_eq!(again, lap < 5);
    }
    assert!(!countdown.is_active);
    assert_eq!(op.screen_color, 0);

    dim_while_clicked(&mut op);
    assert_eq!(op.screen_color, 5);
    assert!(matches!(CurrentMeshColor::from_index(op.screen_color), Some(MeshColor::Black)));
    assert!(CurrentMeshColor::from_index(6).is_none());

    assert!(!albedo.should_run_cycle());
    assert!(!albedo.should_run_dim());
    albedo.state = 2;
    assert!(albedo.should_run_dim());
}

#[test]
fn op_index_counts_entities() {
    let mut op = OpIndex::new();
    assert_eq!((op.index, op.last_op, op.screen_color, op.entities), (0, 0, 0, 9));
    op.add_entity();
    op.add_entity();
    assert_eq!(op.entities, 11);
}

#[test]
fn var_to_sum_seeds_only_fresh_totals() {
    let mut var = SumVariable::new();
    var.push(4);
    var.push(2);
    let mut sum = SumCurrent::new();
    SumCurrent::var_to_sum_if_sum_zero(&var, &mut sum);
    assert_eq!(sum.sum, CalcValue::from_u128(42));
    // A non-fresh total is left alone, and the entry is kept.
    SumCurrent::var_to_sum_if_sum_zero(&var, &mut sum);
    assert_eq!(sum.sum, CalcValue::from_u128(42));
    assert_eq!(var.var, vec![4, 2]);
}
