//! The failure modes of deployment and event subscription.

use vstd::prelude::*;

verus! {

/// Everything that can go wrong while deploying the contracts or streaming
/// their events.
#[derive(Debug, Clone, Copy, PartialEq, Eq, Structural)]
pub enum ContractError {
    /// A transaction could not be sent at all (network or signing failure).
    SubmissionFailed,
    /// A transaction was sent but never included in a block.
    NotMined,
    /// A deployment receipt carried no created-contract address, e.g. the
    /// creation reverted.
    NoContractAddress,
    /// The streaming connection could not be established after exhausting the
    /// configured retries.
    ConnectionFailed,
    /// A log entry did not match the expected event schema.
    DecodeValidationFailed,
}

} // verus!
