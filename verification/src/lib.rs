//! Arithmetic core of a four-function calculator: digit entry with a single
//! decimal mark, a running total with a pending operator, button decoding,
//! and the fixed-width display rule with its overload recovery.

mod buttons;
mod digits;
mod display;
mod entry;
mod laws;
mod ops;
mod screen;
mod value;

pub use buttons::CalcButtons;
pub use buttons::PressEffects;
pub use buttons::fire_button;
pub use buttons::press_button;
pub use buttons::spec_entry_after_equals;
pub use digits::all_digits;
pub use digits::spec_digits_val;
pub use display::spec_displayable;
pub use display::spec_repr;
pub use display::spec_terminating;
pub use display::try_repr;
pub use display::update_sum_text;
pub use display::update_var_text;
pub use entry::SumVariable;
pub use laws::lemma_add_sub_round_trip;
pub use laws::lemma_cross_numeric_seeding;
pub use laws::lemma_duplicate_decimal;
pub use laws::lemma_empty_entry_decodes_zero;
pub use laws::lemma_first_operand_seeding;
pub use laws::lemma_operator_chaining;
pub use laws::lemma_ops_normalize_identically;
pub use ops::CalcOperations;
pub use ops::OpIndex;
pub use ops::SumCurrent;
pub use ops::lemma_flex_value_int;
pub use ops::spec_combine;
pub use ops::spec_combine_fits;
pub use ops::spec_flex_value;
pub use ops::spec_zero_value;
pub use ops::sum_calc_operations;
pub use screen::CountdownCycle;
pub use screen::CurrentMeshColor;
pub use screen::MESH_COLOR_VARIANT_COUNT;
pub use screen::MeshColor;
pub use screen::ScreenAlbedoState;
pub use screen::cycle_screen_albedo;
pub use screen::dim_while_clicked;
pub use screen::screen_albedo;
pub use value::CalcValue;
pub use value::FlexInput;
pub use value::same_ratio;
pub use value::spec_add_fits;
pub use value::spec_add_value;
pub use value::spec_div_fits;
pub use value::spec_div_value;
pub use value::spec_gcd;
pub use value::spec_mag;
pub use value::spec_mul_fits;
pub use value::spec_mul_value;
pub use value::spec_neg_value;
pub use value::spec_reduce;
pub use value::spec_signed;
