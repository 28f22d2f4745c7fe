//! Funding-and-dispatch engine of a synthetic transaction load generator for
//! EVM-compatible chains: balance checks, account provisioning, the bulk
//! funding request, batched dispatch of per-account work and the guard that
//! keeps heavy calls under the per-block gas ceiling.

pub mod amount;
pub mod error;
pub mod funding;
pub mod accounts;
pub mod dispatch;
pub mod heavy;
pub mod kind;
