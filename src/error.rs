//! Errors of the engine.

use crate::amount::Amount;
use vstd::prelude::*;

verus! {

/// What in the operator's configuration was refused.
#[derive(Clone, Copy, Debug, PartialEq, Eq)]
pub enum ConfigIssue {
    /// The funder's private key is not hex, not 32 bytes, or not a valid scalar.
    MalformedPrivateKey,
    /// The workload kind is neither `light` nor `heavy`.
    UnknownWorkload,
    /// The largest batch size is zero.
    ZeroBatchSize,
}

#[derive(Clone, Copy, Debug, PartialEq, Eq)]
pub enum DtpError {
    Configuration(ConfigIssue),
    /// An amount times a count does not fit the integer width.
    ArithmeticOverflow,
    /// A balance does not cover what is needed; `deficit` is how much is missing.
    InsufficientBalance { deficit: Amount },
    /// The node refused a transaction, or its receipt shows it failed.
    TransactionFailure,
    /// A heavy call asked for more work than the per-block ceiling allows.
    GasBudgetExceeded { requested: u64, ceiling: u16 },
    /// Two provisioned accounts share one address.
    DuplicateAddress,
    /// The node could not be reached or answered with something malformed.
    NetworkError,
}

} // verus!
