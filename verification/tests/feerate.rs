use node_core::feerate::{Fee, FeeRate, MempoolPolicyError};
use node_core::primitives::Amount;

#[test]
fn test_from_total_tx_fee() {
    let fee = Fee::new(Amount::from_atoms(7));
    let tx_size = usize::MAX;
    let rate = FeeRate::from_total_tx_fee(fee, tx_size).unwrap();
    assert_eq!(rate, FeeRate::from_amount_per_kb(Amount::from_atoms(0)));

    let fee = Fee::new(Amount::from_atoms(u128::MAX));
    let tx_size = 1;
    let res = FeeRate::from_total_tx_fee(fee, tx_size);
    assert_eq!(res, Err(MempoolPolicyError::FeeOverflow));

    let fee = Fee::new(Amount::from_atoms(u128::MAX - 1));
    let tx_size = 3;
    let res = FeeRate::from_total_tx_fee(fee, tx_size);
    assert_eq!(res, Err(MempoolPolicyError::FeeOverflow));
}

#[test]
fn rate_is_fee_per_thousand_bytes_rounded_down() {
    let rate = FeeRate::from_total_tx_fee(Fee::new(Amount::from_atoms(7)), 3).unwrap();
    assert_eq!(rate.atoms_per_kb(), 2333);
    let rate = FeeRate::from_total_tx_fee(Fee::new(Amount::from_atoms(500)), 250).unwrap();
    assert_eq!(rate.atoms_per_kb(), 2000);
}

#[test]
fn compute_fee_rounds_up() {
    let rate = FeeRate::from_atoms_per_kb(1000);
    assert_eq!(rate.compute_fee(1).unwrap().amount.into_atoms(), 1);
    assert_eq!(rate.compute_fee(250).unwrap().amount.into_atoms(), 250);
    let rate = FeeRate::from_atoms_per_kb(1);
    assert_eq!(rate.compute_fee(1).unwrap().amount.into_atoms(), 1);
    assert_eq!(rate.compute_fee(1000).unwrap().amount.into_atoms(), 1);
    assert_eq!(rate.compute_fee(1001).unwrap().amount.into_atoms(), 2);
    assert_eq!(rate.compute_fee(0).unwrap().amount.into_atoms(), 0);
}

#[test]
fn compute_fee_overflows() {
    let rate = FeeRate::from_atoms_per_kb(u128::MAX);
    assert_eq!(rate.compute_fee(2), Err(MempoolPolicyError::FeeOverflow));
    assert_eq!(rate.compute_fee(1), Err(MempoolPolicyError::FeeOverflow));
    let rate = FeeRate::from_atoms_per_kb(u128::MAX - 999);
    assert_eq!(rate.compute_fee(1).unwrap().amount.into_atoms(), u128::MAX / 1000);
}

#[test]
fn rates_add_and_divide() {
    let a = FeeRate::from_atoms_per_kb(10);
    let b = FeeRate::from_atoms_per_kb(32);
    assert_eq!(a.add(b), Some(FeeRate::from_atoms_per_kb(42)));
    assert_eq!(FeeRate::from_atoms_per_kb(u128::MAX).add(FeeRate::from_atoms_per_kb(1)), None);
    assert_eq!(FeeRate::from_atoms_per_kb(10).div(3), FeeRate::from_atoms_per_kb(3));
}

#[test]
fn amounts_check_their_arithmetic() {
    let a = Amount::from_atoms(5);
    assert_eq!(a.checked_add(Amount::from_atoms(6)), Some(Amount::from_atoms(11)));
    assert_eq!(Amount::from_atoms(u128::MAX).checked_add(Amount::from_atoms(1)), None);
    assert_eq!(a.checked_mul(3), Some(Amount::from_atoms(15)));
    assert_eq!(Amount::from_atoms(u128::MAX).checked_mul(2), None);
    assert_eq!(a.checked_div(2), Some(Amount::from_atoms(2)));
    assert_eq!(a.checked_div(0), None);
}
