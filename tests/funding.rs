use dtp::accounts::provision;
use dtp::amount::Amount;
use dtp::error::DtpError;
use dtp::funding::{check_sufficiency, funder_spent, gas_cost, required_amount, FundingRequest};

fn key(last: u8) -> [u8; 32] {
    let mut k = [0u8; 32];
    k[31] = last;
    k
}

#[test]
fn sufficiency_scenario_a_succeeds() {
    let r = check_sufficiency(&Amount::from_u64(1_000_000), 100, 5);
    assert_eq!(r, Ok(500));
}

#[test]
fn sufficiency_scenario_b_reports_deficit() {
    let r = check_sufficiency(&Amount::from_u64(400), 100, 5);
    assert_eq!(r, Err(DtpError::InsufficientBalance { deficit: Amount::from_u64(100) }));
}

#[test]
fn sufficiency_equal_balance_is_refused() {
    let r = check_sufficiency(&Amount::from_u64(500), 100, 5);
    assert_eq!(r, Err(DtpError::InsufficientBalance { deficit: Amount::zero() }));
    let r = check_sufficiency(&Amount::from_u64(501), 100, 5);
    assert_eq!(r, Ok(500));
}

#[test]
fn sufficiency_overflow_is_reported() {
    let rich = Amount { limbs: [0, 0, 0, 1] };
    assert_eq!(check_sufficiency(&rich, u64::MAX, 2), Err(DtpError::ArithmeticOverflow));
    assert_eq!(required_amount(u64::MAX, 2), Err(DtpError::ArithmeticOverflow));
    assert_eq!(required_amount(u64::MAX, 1), Ok(u64::MAX));
}

#[test]
fn sufficiency_large_balance_passes() {
    let rich = Amount { limbs: [0, 7, 0, 0] };
    assert_eq!(check_sufficiency(&rich, u64::MAX, 1), Ok(u64::MAX));
}

#[test]
fn funding_request_pays_each_account() {
    let keys: Vec<[u8; 32]> = (1..=5).map(key).collect();
    let accounts = provision(&keys).unwrap();
    let req = FundingRequest::new(&accounts, 100);
    assert_eq!(req.recipients().len(), 5);
    for (i, a) in accounts.iter().enumerate() {
        assert_eq!(req.recipients()[i], a.address());
    }
    assert_eq!(req.amount_per_recipient(), 100);
    assert_eq!(req.total_value(), Amount::from_u64(500));
}

#[test]
fn funding_request_for_no_accounts_is_empty() {
    let req = FundingRequest::new(&Vec::new(), 100);
    assert!(req.recipients().is_empty());
    assert_eq!(req.total_value(), Amount::zero());
}

#[test]
fn gas_cost_multiplies_price_and_gas() {
    let c = gas_cost(&Amount::from_u64(3_000_000_000), &Amount::from_u64(21_000)).unwrap();
    assert_eq!(c, Amount::from_u64(63_000_000_000_000));
    let huge = Amount { limbs: [0, 0, 0, u64::MAX] };
    assert!(gas_cost(&huge, &huge).is_none());
}

#[test]
fn funder_spent_is_difference() {
    let s = funder_spent(&Amount::from_u64(1_000_000), &Amount::from_u64(999_000)).unwrap();
    assert_eq!(s, Amount::from_u64(1_000));
    assert!(funder_spent(&Amount::from_u64(1), &Amount::from_u64(2)).is_none());
}
