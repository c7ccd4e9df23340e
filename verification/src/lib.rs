//! An on-chain authority module that scores network validators from
//! historical performance data, maintains a bounded, rank-ordered shortlist
//! of the best performers, and drives the lifecycle of stake accounts
//! delegated to those validators under a single administrative authority.
//!
//! The verified core is the ranked-shortlist engine (`state`, `ranking`),
//! the score calculator (`score`), and the stake-lifecycle state machine
//! (`lifecycle`). Ledger plumbing (account resolution, signing, cross-program
//! invocations) lives outside this library and hands it plain values.

pub mod error;
pub mod lifecycle;
pub mod ranking;
pub mod score;
pub mod state;
