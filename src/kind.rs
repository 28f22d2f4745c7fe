//! The two workload kinds.

use crate::error::{ConfigIssue, DtpError};
use vstd::prelude::*;

verus! {

/// What each provisioned account submits: a cheap counter increment, or a
/// call whose cost grows with a tunable amount of work.
#[derive(Clone, Copy, Debug, PartialEq, Eq)]
pub enum TransactionType {
    Light,
    Heavy,
}

/// The upper-case form of a text, as Unicode defines it.
pub uninterp spec fn upper_of(s: Seq<char>) -> Seq<char>;

/// Relies on `str::to_uppercase` of std: the result depends on the
/// characters alone.
#[verifier::external_body]
fn uppercase(s: &str) -> (r: String)
    ensures
        r@ == upper_of(s@),
{
    s.to_uppercase()
}

/// The kind named by an upper-case text.
pub open spec fn kind_of_upper(u: Seq<char>) -> Option<TransactionType> {
    if u == "LIGHT"@ {
        Some(TransactionType::Light)
    } else if u == "HEAVY"@ {
        Some(TransactionType::Heavy)
    } else {
        None
    }
}

/// The result of reading a kind from its upper-case text.
pub open spec fn parsed_kind(u: Seq<char>) -> Result<TransactionType, DtpError> {
    match kind_of_upper(u) {
        Some(k) => Ok(k),
        None => Err(DtpError::Configuration(ConfigIssue::UnknownWorkload)),
    }
}

impl TransactionType {
    /// Reads a kind from text already in upper case.
    pub fn from_upper(u: &String) -> (r: Result<TransactionType, DtpError>)
        ensures
            r == parsed_kind(u@),
    {
        let light = "LIGHT".to_owned();
        let heavy = "HEAVY".to_owned();
        if *u == light {
            Ok(TransactionType::Light)
        } else if *u == heavy {
            Ok(TransactionType::Heavy)
        } else {
            Err(DtpError::Configuration(ConfigIssue::UnknownWorkload))
        }
    }

    /// Reads a kind from text, whatever its case: `light` or `heavy`.
    pub fn parse(s: &str) -> (r: Result<TransactionType, DtpError>)
        ensures
            r == parsed_kind(upper_of(s@)),
    {
        let u = uppercase(s);
        Self::from_upper(&u)
    }
}

impl std::str::FromStr for TransactionType {
    type Err = DtpError;

    fn from_str(s: &str) -> (r: Result<TransactionType, DtpError>)
        ensures
            r == parsed_kind(upper_of(s@)),
    {
        Self::parse(s)
    }
}

} // verus!
