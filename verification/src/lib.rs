//! Deployment sequencing and event-stream decoding for a committee-registration
//! contract ("KeyManager") that sits behind an upgradeable proxy.
//!
//! The library models the data that flows between the caller and the chain as
//! plain values (addresses, receipts, raw log entries) and verifies the logic
//! that decides, encodes and decodes: the two-transaction deployment sequence,
//! the `initialize(address)` calldata, the `CommitteeCreated` event schema with
//! its drop-invalid-entries decoding, and the subscription configuration.
//! An in-process model of a fresh test chain ([`sim`]) exercises the same
//! logic end to end.

pub mod abi;
pub mod deployer;
pub mod error;
pub mod events;
pub mod hashing;
pub mod provider;
pub mod sim;
pub mod types;
