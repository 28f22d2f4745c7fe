//! The guard on heavy calls: the work a call asks for is held under a
//! per-block ceiling, and the caller's balance is checked against the
//! estimated cost before anything is submitted.

use crate::amount::{amount_bound, Amount};
use crate::error::DtpError;
use vstd::prelude::*;

verus! {

/// Largest `setArray` count known to keep a block under its gas limit on the
/// target network; the operator may configure another.
pub const DEFAULT_MAX_LOAD_COUNT_PER_BLOCK: u16 = 2650;

/// Gas price assumed when estimating the cost of a heavy call: 3.5 gwei.
pub const HEAVY_GAS_PRICE_WEI: u64 = 3_500_000_000;

/// A heavy call whose work has passed the ceiling. Only such a value can be
/// handed on for submission.
#[derive(Clone, Copy, Debug, PartialEq, Eq)]
pub struct HeavyCall {
    count: u16,
    ceiling: u16,
}

impl HeavyCall {
    pub closed spec fn count_view(&self) -> nat {
        self.count as nat
    }

    pub closed spec fn ceiling_view(&self) -> nat {
        self.ceiling as nat
    }

    /// Every heavy call asks for no more work than its ceiling.
    #[verifier::type_invariant]
    spec fn within_ceiling(&self) -> bool {
        self.count <= self.ceiling
    }

    pub open spec fn wf(&self) -> bool {
        self.count_view() <= self.ceiling_view()
    }

    /// Admits a call asking for `requested` units of work under `ceiling`;
    /// more than the ceiling is refused.
    pub fn new(requested: u64, ceiling: u16) -> (r: Result<HeavyCall, DtpError>)
        ensures
            requested > ceiling ==> r == Err::<HeavyCall, DtpError>(
                DtpError::GasBudgetExceeded { requested, ceiling },
            ),
            requested <= ceiling ==> (r matches Ok(c) && c.wf() && c.count_view() == requested
                && c.ceiling_view() == ceiling),
    {
        if requested > ceiling as u64 {
            Err(DtpError::GasBudgetExceeded { requested, ceiling })
        } else {
            Ok(HeavyCall { count: requested as u16, ceiling })
        }
    }

    /// The work to submit; never above the ceiling.
    pub fn count(&self) -> (r: u16)
        ensures
            r == self.count_view(),
            r <= self.ceiling_view(),
    {
        proof {
            use_type_invariant(self);
        }
        self.count
    }

    pub fn ceiling(&self) -> (r: u16)
        ensures
            r == self.ceiling_view(),
    {
        self.ceiling
    }

    /// Checks that `balance` covers `estimated_gas` at the assumed heavy gas
    /// price, and returns that cost.
    pub fn preflight(&self, balance: &Amount, estimated_gas: &Amount) -> (r: Result<
        Amount,
        DtpError,
    >)
        ensures
            estimated_gas.value() * HEAVY_GAS_PRICE_WEI >= amount_bound() ==> r == Err::<
                Amount,
                DtpError,
            >(DtpError::ArithmeticOverflow),
            estimated_gas.value() * HEAVY_GAS_PRICE_WEI < amount_bound() && balance.value()
                >= estimated_gas.value() * HEAVY_GAS_PRICE_WEI ==> (r matches Ok(cost)
                && cost.value() == estimated_gas.value() * HEAVY_GAS_PRICE_WEI),
            estimated_gas.value() * HEAVY_GAS_PRICE_WEI < amount_bound() && balance.value()
                < estimated_gas.value() * HEAVY_GAS_PRICE_WEI ==> match r {
                Err(DtpError::InsufficientBalance { deficit }) => deficit.value()
                    == estimated_gas.value() * HEAVY_GAS_PRICE_WEI - balance.value(),
                _ => false,
            },
    {
        let price = Amount::from_u64(HEAVY_GAS_PRICE_WEI);
        let cost = match estimated_gas.checked_mul(&price) {
            Some(c) => c,
            None => {
                return Err(DtpError::ArithmeticOverflow);
            },
        };
        match cost.checked_sub(balance) {
            Some(deficit) => {
                if deficit.gt(&Amount::zero()) {
                    Err(DtpError::InsufficientBalance { deficit })
                } else {
                    Ok(cost)
                }
            },
            None => Ok(cost),
        }
    }
}

} // verus!
