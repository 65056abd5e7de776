use calc_sim::CalcValue;
use calc_sim::SumCurrent;

#[test]
fn check_sum() {
    let sum = SumCurrent::new_from(CalcValue::from_u128(5));
    assert_eq!(sum.sum, CalcValue::from_u128(5));
}

#[test]
fn check_add() {
    let mut sum = SumCurrent::new_from(CalcValue::from_u128(5));
    assert_eq!(sum.sum, CalcValue::from_u128(5));

    let sum1 = sum.add(2);
    assert_eq!(sum1.sum, CalcValue::from_u128(7));

    let sum2 = sum.add(CalcValue::from_u128(12));
    assert_eq!(sum2.sum, CalcValue::from_u128(17));

    let sum3 = sum.add(24 as usize);
    assert_eq!(sum3.sum, CalcValue::from_u128(29));
}

#[test]
fn check_subtract() {
    let mut sum = SumCurrent::new_from(CalcValue::from_u128(120));

    let sum1 = sum.subtract(2);
    assert_eq!(sum1.sum, CalcValue::from_u128(118));

    let sum2 = sum.subtract(CalcValue::from_u128(12));
    assert_eq!(sum2.sum, CalcValue::from_u128(108));

    let sum3 = sum.subtract(24 as usize);
    assert_eq!(sum3.sum, CalcValue::from_u128(96));
}

#[test]
fn check_multiply() {
    let mut sum = SumCurrent::new_from(CalcValue::from_u128(120));

    let sum1 = sum.multiply(2);
    assert_eq!(sum1.sum, CalcValue::from_u128(240));

    let sum2 = sum.multiply(CalcValue::from_u128(12));
    assert_eq!(sum2.sum, CalcValue::from_u128(1440));

    let sum3 = sum.multiply(24 as usize);
    assert_eq!(sum3.sum, CalcValue::from_u128(2880));
}

#[test]
fn check_divide() {
    let mut sum = SumCurrent::new_from(CalcValue::from_u128(120));

    let sum1 = sum.divide(2);
    assert_eq!(sum1.sum, CalcValue::from_u128(60));

    let sum2 = sum.divide(CalcValue::from_u128(12));
    assert_eq!(sum2.sum, CalcValue::from_u128(10));

    let sum3 = sum.divide(24 as usize);
    assert_eq!(sum3.sum, CalcValue::from_u128(5));
}
