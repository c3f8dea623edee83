use fardels::commission::{default_transaction_fee, settle, valid_transaction_fee, StoredFee};
use fardels::errors::FardelError;

#[test]
fn settlement_splits_exactly() {
    let fee = StoredFee { commission_rate_nom: 250, commission_rate_denom: 1000 };
    // floor(12345 * 250 / 1000) = 3086
    let (payment, commission) = settle(12345, fee);
    assert_eq!(commission, 3086);
    assert_eq!(payment, 9259);
    assert_eq!(payment + commission, 12345);
}

#[test]
fn settlement_rounds_down() {
    let fee = StoredFee { commission_rate_nom: 3, commission_rate_denom: 1000 };
    // floor(100 * 3 / 1000) = 0: everything goes to the owner
    assert_eq!(settle(100, fee), (100, 0));
    // floor(1000 * 3 / 1000) = 3
    assert_eq!(settle(1000, fee), (997, 3));
    // floor(1999 * 3 / 1000) = 5
    assert_eq!(settle(1999, fee), (1994, 5));
}

#[test]
fn settlement_of_zero_and_full_rate() {
    let all = StoredFee { commission_rate_nom: 1, commission_rate_denom: 1 };
    assert_eq!(settle(0, all), (0, 0));
    assert_eq!(settle(77, all), (0, 77));
}

#[test]
fn settlement_widens_before_multiplying() {
    // amount * nom overflows 128 bits; the 256-bit intermediate keeps the
    // result exact: floor(u128::MAX * 1 / 2) == u128::MAX / 2
    let fee = StoredFee { commission_rate_nom: 1, commission_rate_denom: 2 };
    let amount = u128::MAX;
    let (payment, commission) = settle(amount, fee);
    assert_eq!(commission, u128::MAX / 2);
    assert_eq!(payment + commission, amount);

    let heavy = StoredFee { commission_rate_nom: u128::MAX - 1, commission_rate_denom: u128::MAX };
    let (payment, commission) = settle(u128::MAX, heavy);
    assert_eq!(commission, u128::MAX - 1);
    assert_eq!(payment, 1);
}

#[test]
fn fee_validation() {
    assert_eq!(
        valid_transaction_fee(None).unwrap(),
        StoredFee { commission_rate_nom: 3, commission_rate_denom: 1000 }
    );
    assert_eq!(
        default_transaction_fee(),
        StoredFee { commission_rate_nom: 3, commission_rate_denom: 1000 }
    );
    let ok = StoredFee { commission_rate_nom: 1000, commission_rate_denom: 1000 };
    assert_eq!(valid_transaction_fee(Some(ok)).unwrap(), ok);
    let above_one = StoredFee { commission_rate_nom: 1001, commission_rate_denom: 1000 };
    assert_eq!(
        valid_transaction_fee(Some(above_one)).unwrap_err(),
        FardelError::InvalidInput
    );
    let zero_denom = StoredFee { commission_rate_nom: 0, commission_rate_denom: 0 };
    assert_eq!(
        valid_transaction_fee(Some(zero_denom)).unwrap_err(),
        FardelError::InvalidInput
    );
}
