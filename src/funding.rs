//! The funder's balance check and the single bulk funding request.

use crate::accounts::{Account, Address};
use crate::amount::{amount_bound, Amount};
use crate::error::DtpError;
use vstd::prelude::*;

verus! {

/// What the funder must hold: one funding amount per account, computed in
/// 64-bit integers.
pub fn required_amount(funding_amount: u64, num_accounts: u32) -> (r: Result<u64, DtpError>)
    ensures
        funding_amount * num_accounts <= u64::MAX ==> r == Ok::<u64, DtpError>(
            (funding_amount * num_accounts) as u64,
        ),
        funding_amount * num_accounts > u64::MAX ==> r == Err::<u64, DtpError>(
            DtpError::ArithmeticOverflow,
        ),
{
    match funding_amount.checked_mul(num_accounts as u64) {
        Some(p) => Ok(p),
        None => Err(DtpError::ArithmeticOverflow),
    }
}

/// Checks that the funder's balance strictly exceeds what funding
/// `num_accounts` accounts with `funding_amount` each takes, and returns that
/// requirement. A balance equal to the requirement is refused: nothing would
/// be left for the funder's own gas.
pub fn check_sufficiency(balance: &Amount, funding_amount: u64, num_accounts: u32) -> (r: Result<
    u64,
    DtpError,
>)
    ensures
        funding_amount * num_accounts > u64::MAX ==> r == Err::<u64, DtpError>(
            DtpError::ArithmeticOverflow,
        ),
        funding_amount * num_accounts <= u64::MAX && balance.value() > funding_amount
            * num_accounts ==> r == Ok::<u64, DtpError>((funding_amount * num_accounts) as u64),
        funding_amount * num_accounts <= u64::MAX && balance.value() <= funding_amount
            * num_accounts ==> match r {
            Err(DtpError::InsufficientBalance { deficit }) => deficit.value() == funding_amount
                * num_accounts - balance.value(),
            _ => false,
        },
{
    let required = required_amount(funding_amount, num_accounts)?;
    let required_amt = Amount::from_u64(required);
    if balance.gt(&required_amt) {
        Ok(required)
    } else {
        match required_amt.checked_sub(balance) {
            Some(deficit) => Err(DtpError::InsufficientBalance { deficit }),
            None => Err(DtpError::ArithmeticOverflow),
        }
    }
}

/// The one transfer that funds every provisioned account: each recipient
/// gets `amount_per_recipient`, and the transaction carries the sum.
#[derive(Debug)]
pub struct FundingRequest {
    recipients: Vec<Address>,
    amount_per_recipient: u64,
    total_value: Amount,
}

impl FundingRequest {
    pub closed spec fn recipients_view(&self) -> Seq<Address> {
        self.recipients@
    }

    pub closed spec fn amount_view(&self) -> nat {
        self.amount_per_recipient as nat
    }

    pub closed spec fn total_view(&self) -> nat {
        self.total_value.value()
    }

    /// The request paying `amount_per_recipient` to each account, in the
    /// accounts' order.
    pub fn new(accounts: &Vec<Account>, amount_per_recipient: u64) -> (r: FundingRequest)
        ensures
            r.recipients_view().len() == accounts@.len(),
            forall|i: int|
                0 <= i < accounts@.len() ==> r.recipients_view()[i] == (
                #[trigger] accounts@[i]).address_view(),
            r.amount_view() == amount_per_recipient,
            r.total_view() == amount_per_recipient * accounts@.len(),
    {
        let mut recipients: Vec<Address> = Vec::new();
        let mut i: usize = 0;
        while i < accounts.len()
            invariant
                i <= accounts@.len(),
                recipients@.len() == i,
                forall|k: int|
                    0 <= k < i ==> recipients@[k] == (#[trigger] accounts@[k]).address_view(),
            decreases accounts@.len() - i,
        {
            recipients.push(accounts[i].address());
            i += 1;
        }
        let n = Amount::from_u64(accounts.len() as u64);
        let per = Amount::from_u64(amount_per_recipient);
        assert(per.value() * n.value() < amount_bound()) by (nonlinear_arith)
            requires
                per.value() <= u64::MAX,
                n.value() <= u64::MAX,
                amount_bound() == 0x1_0000_0000_0000_0000nat * 0x1_0000_0000_0000_0000nat
                    * 0x1_0000_0000_0000_0000nat * 0x1_0000_0000_0000_0000nat,
        ;
        let total_value = match per.checked_mul(&n) {
            Some(t) => t,
            None => Amount::zero(),
        };
        FundingRequest { recipients, amount_per_recipient, total_value }
    }

    pub fn recipients(&self) -> (r: &Vec<Address>)
        ensures
            r@ == self.recipients_view(),
    {
        &self.recipients
    }

    pub fn amount_per_recipient(&self) -> (r: u64)
        ensures
            r == self.amount_view(),
    {
        self.amount_per_recipient
    }

    /// The value the transaction carries.
    pub fn total_value(&self) -> (r: Amount)
        ensures
            r.value() == self.total_view(),
    {
        self.total_value
    }
}

/// What a confirmed transaction cost: effective gas price times gas used, or
/// `None` where that overflows 256 bits.
pub fn gas_cost(effective_gas_price: &Amount, gas_used: &Amount) -> (r: Option<Amount>)
    ensures
        match r {
            Some(c) => c.value() == effective_gas_price.value() * gas_used.value(),
            None => effective_gas_price.value() * gas_used.value() >= amount_bound(),
        },
{
    effective_gas_price.checked_mul(gas_used)
}

/// How much the funder spent between two balance readings, or `None` where
/// the later balance is the larger.
pub fn funder_spent(initial: &Amount, last: &Amount) -> (r: Option<Amount>)
    ensures
        match r {
            Some(d) => d.value() == initial.value() - last.value(),
            None => last.value() > initial.value(),
        },
{
    initial.checked_sub(last)
}

} // verus!
