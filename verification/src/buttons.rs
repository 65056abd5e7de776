//! Button identity, and the interpretation of a button press against the
//! calculator state.

use vstd::prelude::*;

use crate::entry::SumVariable;
use crate::ops::{spec_combine_value, spec_combine_value_fits, spec_zero_value,
    sum_calc_operations, OpIndex, SumCurrent};
use crate::screen::{ScreenAlbedoState, MESH_COLOR_VARIANT_COUNT};

verus! {

/// Every button of the scene: the keypad, and the three ambient meshes that
/// only affect cosmetic state.
#[derive(Clone, Copy, Debug, PartialEq, Eq, Structural)]
pub enum CalcButtons {
    Sum,
    Clear,
    Decimal,
    Add,
    Subtract,
    Multiply,
    Divide,
    Num0,
    Num1,
    Num2,
    Num3,
    Num4,
    Num5,
    Num6,
    Num7,
    Num8,
    Num9,
    NoneButtonBody,
    NoneButtonScreen,
    NoneButtonLightPanel,
}

impl CalcButtons {
    /// The button a scene-entity index resolves to, given how many entities
    /// were spawned after startup: each button mesh sits at a fixed offset
    /// from that count.
    pub open spec fn spec_from_index(entities: u32, index: u32) -> Option<CalcButtons> {
        let key = index as int - entities as int;
        if key == 40 {
            Some(CalcButtons::Sum)
        } else if key == 46 {
            Some(CalcButtons::Clear)
        } else if key == 48 {
            Some(CalcButtons::Decimal)
        } else if key == 41 {
            Some(CalcButtons::Add)
        } else if key == 42 {
            Some(CalcButtons::Subtract)
        } else if key == 43 {
            Some(CalcButtons::Multiply)
        } else if key == 44 {
            Some(CalcButtons::Divide)
        } else if key == 47 {
            Some(CalcButtons::Num0)
        } else if key == 50 {
            Some(CalcButtons::Num1)
        } else if key == 51 {
            Some(CalcButtons::Num2)
        } else if key == 52 {
            Some(CalcButtons::Num3)
        } else if key == 54 {
            Some(CalcButtons::Num4)
        } else if key == 55 {
            Some(CalcButtons::Num5)
        } else if key == 56 {
            Some(CalcButtons::Num6)
        } else if key == 58 {
            Some(CalcButtons::Num7)
        } else if key == 59 {
            Some(CalcButtons::Num8)
        } else if key == 60 {
            Some(CalcButtons::Num9)
        } else if key == 37 {
            Some(CalcButtons::NoneButtonBody)
        } else if key == 62 {
            Some(CalcButtons::NoneButtonScreen)
        } else if key == 63 {
            Some(CalcButtons::NoneButtonLightPanel)
        } else {
            None
        }
    }

    /// Resolve a scene-entity index to a button, against the current entity
    /// count.
    pub fn from_index(op_index: &OpIndex, index: u32) -> (r: Option<CalcButtons>)
        ensures
            r == Self::spec_from_index(op_index.entities, index),
    {
        let key: u64 = index as u64;
        let base: u64 = op_index.entities as u64;
        if key < base {
            return None;
        }
        let offset: u64 = key - base;
        match offset {
            40 => Some(CalcButtons::Sum),
            46 => Some(CalcButtons::Clear),
            48 => Some(CalcButtons::Decimal),
            41 => Some(CalcButtons::Add),
            42 => Some(CalcButtons::Subtract),
            43 => Some(CalcButtons::Multiply),
            44 => Some(CalcButtons::Divide),
            47 => Some(CalcButtons::Num0),
            50 => Some(CalcButtons::Num1),
            51 => Some(CalcButtons::Num2),
            52 => Some(CalcButtons::Num3),
            54 => Some(CalcButtons::Num4),
            55 => Some(CalcButtons::Num5),
            56 => Some(CalcButtons::Num6),
            58 => Some(CalcButtons::Num7),
            59 => Some(CalcButtons::Num8),
            60 => Some(CalcButtons::Num9),
            37 => Some(CalcButtons::NoneButtonBody),
            62 => Some(CalcButtons::NoneButtonScreen),
            63 => Some(CalcButtons::NoneButtonLightPanel),
            _ => None,
        }
    }

    /// The digit a numeral button enters.
    pub open spec fn spec_digit(self) -> Option<i32> {
        match self {
            CalcButtons::Num0 => Some(0),
            CalcButtons::Num1 => Some(1),
            CalcButtons::Num2 => Some(2),
            CalcButtons::Num3 => Some(3),
            CalcButtons::Num4 => Some(4),
            CalcButtons::Num5 => Some(5),
            CalcButtons::Num6 => Some(6),
            CalcButtons::Num7 => Some(7),
            CalcButtons::Num8 => Some(8),
            CalcButtons::Num9 => Some(9),
            _ => None,
        }
    }

    /// The dispatch index an operation key requests.
    pub open spec fn spec_op_index(self) -> Option<u32> {
        match self {
            CalcButtons::Clear => Some(1),
            CalcButtons::Add => Some(2),
            CalcButtons::Subtract => Some(3),
            CalcButtons::Multiply => Some(4),
            CalcButtons::Divide => Some(5),
            CalcButtons::Sum => Some(6),
            _ => None,
        }
    }
}

/// What a button press asks of the cosmetic layer, beside its effect on the
/// calculator state.
#[derive(Clone, Copy, Debug, PartialEq, Eq, Structural)]
pub struct PressEffects {
    /// Play the key-click animation and sound.
    pub click_animation: bool,
    /// Play the body-tap animation and sound.
    pub body_animation: bool,
    /// A second decimal press was rejected; play the shake animation.
    pub duplicate_decimal: bool,
    /// The requested combine step was carried exactly; when false the total
    /// was reset to zero (machine range exceeded, or division by a zero
    /// entry).
    pub combine_ok: bool,
}

/// Interpret a button held down (mouse pressed, not yet released): holding
/// the light panel asks for the dim pass, every other button waits for the
/// release.
pub fn fire_button(button: &CalcButtons, screen_albedo: &mut ScreenAlbedoState)
    ensures
        *button is NoneButtonLightPanel ==> final(screen_albedo).state == 2,
        !(*button is NoneButtonLightPanel) ==> *final(screen_albedo) == *old(screen_albedo),
{
    match button {
        CalcButtons::NoneButtonLightPanel => {
            screen_albedo.state = 2;
        },
        _ => {},
    }
}

/// The entry a press works on: a press that follows an equals key starts a
/// new operand, so the displayed entry is dropped first.
pub open spec fn spec_entry_after_equals(op: OpIndex, var: SumVariable) -> Seq<i32> {
    if op.index == 6 {
        Seq::<i32>::empty()
    } else {
        var.var@
    }
}

/// Interpret one released button against the calculator state: digits and
/// the decimal key grow the entry, operation keys dispatch through
/// `sum_calc_operations`, ambient buttons touch only cosmetic state.
pub fn press_button(
    button: &CalcButtons,
    op: &mut OpIndex,
    var: &mut SumVariable,
    sum: &mut SumCurrent,
    screen_albedo: &mut ScreenAlbedoState,
) -> (fx: PressEffects)
    requires
        old(var).wf(),
        old(sum).sum.wf(),
        old(var).var@.len() < i32::MAX,
    ensures
        final(var).wf(),
        final(sum).sum.wf(),
        final(op).entities == old(op).entities,
        // Numeral keys: append the digit; after an equals the entry restarts.
        button.spec_digit() is Some ==> {
            &&& final(var).var@ == spec_entry_after_equals(*old(op), *old(var)).push(
                button.spec_digit()->0,
            )
            &&& final(var).decimal_index == (if old(op).index == 6 {
                0i32
            } else {
                old(var).decimal_index
            })
            &&& final(op).index == (if old(op).index == 6 {
                0u32
            } else {
                old(op).index
            })
            &&& final(op).last_op == old(op).last_op
            &&& final(op).screen_color == old(op).screen_color
            &&& *final(sum) == *old(sum)
            &&& *final(screen_albedo) == *old(screen_albedo)
            &&& fx == (PressEffects {
                click_animation: true,
                body_animation: false,
                duplicate_decimal: false,
                combine_ok: true,
            })
        },
        // The decimal key: an empty entry gets a leading zero, then the mark
        // is set at the current digit count; a second press only signals.
        *button is Decimal ==> {
            let base_digits = spec_entry_after_equals(*old(op), *old(var));
            let base_mark = if old(op).index == 6 {
                0int
            } else {
                old(var).decimal_index as int
            };
            let digits2 = if base_digits.len() == 0 {
                base_digits.push(0)
            } else {
                base_digits
            };
            &&& final(var).var@ == digits2
            &&& final(var).decimal_index as int == (if base_mark == 0 {
                digits2.len() as int
            } else {
                base_mark
            })
            &&& final(op).index == (if old(op).index == 6 {
                0u32
            } else {
                old(op).index
            })
            &&& final(op).last_op == old(op).last_op
            &&& final(op).screen_color == old(op).screen_color
            &&& *final(sum) == *old(sum)
            &&& *final(screen_albedo) == *old(screen_albedo)
            &&& fx == (PressEffects {
                click_animation: true,
                body_animation: false,
                duplicate_decimal: base_mark != 0,
                combine_ok: true,
            })
        },
        // Clear: both total and entry reset, no operator pending.
        *button is Clear ==> {
            &&& final(op).index == 1
            &&& final(op).last_op == 0
            &&& final(op).screen_color == old(op).screen_color
            &&& final(sum).sum == spec_zero_value()
            &&& final(var).var@.len() == 0
            &&& final(var).decimal_index == 0
            &&& *final(screen_albedo) == *old(screen_albedo)
            &&& fx == (PressEffects {
                click_animation: true,
                body_animation: false,
                duplicate_decimal: false,
                combine_ok: true,
            })
        },
        // Operator keys: fold the entry into the total with the previously
        // pending operator, then record the new operator and clear the entry.
        // After an equals the leftover entry is dropped, not recombined.
        *button is Add || *button is Subtract || *button is Multiply || *button is Divide ==> {
            let stale = old(op).index == 6;
            let e = if stale {
                spec_zero_value()
            } else {
                old(var).spec_entry_value()
            };
            let efits = stale || old(var).spec_entry_fits();
            &&& final(op).index == button.spec_op_index()->0
            &&& final(op).last_op == button.spec_op_index()->0 - 1
            &&& final(op).screen_color == old(op).screen_color
            &&& final(var).var@.len() == 0
            &&& final(var).decimal_index == 0
            &&& *final(screen_albedo) == *old(screen_albedo)
            &&& fx.combine_ok == (efits && spec_combine_value_fits(
                old(sum).sum,
                old(op).last_op,
                e,
            ))
            &&& (fx.combine_ok ==> final(sum).sum == spec_combine_value(
                old(sum).sum,
                old(op).last_op,
                e,
            ))
            &&& (!fx.combine_ok ==> final(sum).sum == spec_zero_value())
            &&& fx.click_animation && !fx.body_animation && !fx.duplicate_decimal
        },
        // Equals: fold the entry into the total with the pending operator;
        // the operator stays pending and the entry stays for redisplay.
        *button is Sum ==> {
            &&& final(op).index == 6
            &&& final(op).last_op == old(op).last_op
            &&& final(op).screen_color == old(op).screen_color
            &&& *final(var) == *old(var)
            &&& *final(screen_albedo) == *old(screen_albedo)
            &&& fx.combine_ok == (old(var).spec_entry_fits() && spec_combine_value_fits(
                old(sum).sum,
                old(op).last_op,
                old(var).spec_entry_value(),
            ))
            &&& (fx.combine_ok ==> final(sum).sum == spec_combine_value(
                old(sum).sum,
                old(op).last_op,
                old(var).spec_entry_value(),
            ))
            &&& (!fx.combine_ok ==> final(sum).sum == spec_zero_value())
            &&& fx.click_animation && !fx.body_animation && !fx.duplicate_decimal
        },
        // The body: only the tap animation.
        *button is NoneButtonBody ==> {
            &&& *final(op) == *old(op)
            &&& *final(var) == *old(var)
            &&& *final(sum) == *old(sum)
            &&& *final(screen_albedo) == *old(screen_albedo)
            &&& fx == (PressEffects {
                click_animation: false,
                body_animation: true,
                duplicate_decimal: false,
                combine_ok: true,
            })
        },
        // The screen: step the color (wrapping past the table) and ask for
        // the plain albedo pass.
        *button is NoneButtonScreen ==> {
            &&& final(op).index == old(op).index
            &&& final(op).last_op == old(op).last_op
            &&& final(op).screen_color == (if old(op).screen_color >= MESH_COLOR_VARIANT_COUNT {
                0u32
            } else {
                (old(op).screen_color + 1) as u32
            })
            &&& *final(var) == *old(var)
            &&& *final(sum) == *old(sum)
            &&& final(screen_albedo).state == 0
            &&& fx == (PressEffects {
                click_animation: false,
                body_animation: false,
                duplicate_decimal: false,
                combine_ok: true,
            })
        },
        // The light panel: ask for the color-cycle pass.
        *button is NoneButtonLightPanel ==> {
            &&& *final(op) == *old(op)
            &&& *final(var) == *old(var)
            &&& *final(sum) == *old(sum)
            &&& final(screen_albedo).state == 1
            &&& fx == (PressEffects {
                click_animation: false,
                body_animation: false,
                duplicate_decimal: false,
                combine_ok: true,
            })
        },
{
    match button {
        CalcButtons::Clear => {
            op.index = 1;
            op.last_op = 0;
            let ok = sum_calc_operations(op, var, sum);
            PressEffects {
                click_animation: true,
                body_animation: false,
                duplicate_decimal: false,
                combine_ok: ok,
            }
        },
        CalcButtons::Decimal => {
            if op.index == 6 {
                var.clear();
                op.index = 0;
            }
            if var.var.len() == 0 {
                var.push(0);
            }
            let duplicate = var.decimal();
            PressEffects {
                click_animation: true,
                body_animation: false,
                duplicate_decimal: duplicate,
                combine_ok: true,
            }
        },
        CalcButtons::Add => {
            if op.index == 6 {
                var.clear();
                proof {
                    crate::laws::lemma_empty_entry_decodes_zero(*var);
                }
            }
            op.index = 2;
            let ok = sum_calc_operations(op, var, sum);
            PressEffects {
                click_animation: true,
                body_animation: false,
                duplicate_decimal: false,
                combine_ok: ok,
            }
        },
        CalcButtons::Subtract => {
            if op.index == 6 {
                var.clear();
                proof {
                    crate::laws::lemma_empty_entry_decodes_zero(*var);
                }
            }
            op.index = 3;
            let ok = sum_calc_operations(op, var, sum);
            PressEffects {
                click_animation: true,
                body_animation: false,
                duplicate_decimal: false,
                combine_ok: ok,
            }
        },
        CalcButtons::Multiply => {
            if op.index == 6 {
                var.clear();
                proof {
                    crate::laws::lemma_empty_entry_decodes_zero(*var);
                }
            }
            op.index = 4;
            let ok = sum_calc_operations(op, var, sum);
            PressEffects {
                click_animation: true,
                body_animation: false,
                duplicate_decimal: false,
                combine_ok: ok,
            }
        },
        CalcButtons::Divide => {
            if op.index == 6 {
                var.clear();
                proof {
                    crate::laws::lemma_empty_entry_decodes_zero(*var);
                }
            }
            op.index = 5;
            let ok = sum_calc_operations(op, var, sum);
            PressEffects {
                click_animation: true,
                body_animation: false,
                duplicate_decimal: false,
                combine_ok: ok,
            }
        },
        CalcButtons::Sum => {
            op.index = 6;
            let ok = sum_calc_operations(op, var, sum);
            PressEffects {
                click_animation: true,
                body_animation: false,
                duplicate_decimal: false,
                combine_ok: ok,
            }
        },
        CalcButtons::Num0 => {
            press_digit(op, var, 0);
            press_fx()
        },
        CalcButtons::Num1 => {
            press_digit(op, var, 1);
            press_fx()
        },
        CalcButtons::Num2 => {
            press_digit(op, var, 2);
            press_fx()
        },
        CalcButtons::Num3 => {
            press_digit(op, var, 3);
            press_fx()
        },
        CalcButtons::Num4 => {
            press_digit(op, var, 4);
            press_fx()
        },
        CalcButtons::Num5 => {
            press_digit(op, var, 5);
            press_fx()
        },
        CalcButtons::Num6 => {
            press_digit(op, var, 6);
            press_fx()
        },
        CalcButtons::Num7 => {
            press_digit(op, var, 7);
            press_fx()
        },
        CalcButtons::Num8 => {
            press_digit(op, var, 8);
            press_fx()
        },
        CalcButtons::Num9 => {
            press_digit(op, var, 9);
            press_fx()
        },
        CalcButtons::NoneButtonBody => {
            PressEffects {
                click_animation: false,
                body_animation: true,
                duplicate_decimal: false,
                combine_ok: true,
            }
        },
        CalcButtons::NoneButtonScreen => {
            screen_albedo.state = 0;
            if op.screen_color >= MESH_COLOR_VARIANT_COUNT {
                op.screen_color = 0;
            } else {
                op.screen_color = op.screen_color + 1;
            }
            PressEffects {
                click_animation: false,
                body_animation: false,
                duplicate_decimal: false,
                combine_ok: true,
            }
        },
        CalcButtons::NoneButtonLightPanel => {
            screen_albedo.state = 1;
            PressEffects {
                click_animation: false,
                body_animation: false,
                duplicate_decimal: false,
                combine_ok: true,
            }
        },
    }
}

/// The effect set of an ordinary key press: the click, nothing else.
fn press_fx() -> (fx: PressEffects)
    ensures
        fx == (PressEffects {
            click_animation: true,
            body_animation: false,
            duplicate_decimal: false,
            combine_ok: true,
        }),
{
    PressEffects {
        click_animation: true,
        body_animation: false,
        duplicate_decimal: false,
        combine_ok: true,
    }
}

/// A digit key: start a new operand after an equals, then append the digit.
fn press_digit(op: &mut OpIndex, var: &mut SumVariable, d: i32)
    requires
        old(var).wf(),
        0 <= d <= 9,
        old(var).var@.len() < i32::MAX,
    ensures
        final(var).wf(),
        final(var).var@ == spec_entry_after_equals(*old(op), *old(var)).push(d),
        final(var).decimal_index == (if old(op).index == 6 {
            0i32
        } else {
            old(var).decimal_index
        }),
        final(op).index == (if old(op).index == 6 {
            0u32
        } else {
            old(op).index
        }),
        final(op).last_op == old(op).last_op,
        final(op).screen_color == old(op).screen_color,
        final(op).entities == old(op).entities,
{
    if op.index == 6 {
        var.clear();
        op.index = 0;
    }
    var.push(d);
}

} // verus!
