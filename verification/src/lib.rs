//! Confidential election protocol: a public ledger keeps an auditable vote
//! count while single ballots stay encrypted until an authorised reveal.
//!
//! The ledger cannot compute on ciphertexts. It hands that work to a
//! computation cluster as requests and resumes when the cluster's outcome
//! arrives, whenever that is. The state machine in [`protocol`] guarantees that
//! every registered voter votes at most once, that tally updates are applied
//! once and in the order in which their versions chain, and that aborted,
//! repeated or stale outcomes leave the tally as it was. [`model`] states each
//! operation over mathematical values and [`laws`] proves what follows for
//! every history.

// Records and their keys.
pub mod error;
pub mod state;
pub mod address;

// The components of the state machine.
pub mod table;
pub mod registry;
pub mod nullifier;
pub mod gateway;

// The state machine, its model and what holds of it.
pub mod model;
pub mod protocol;
pub mod laws;

// The program's instructions and their processing.
pub mod instruction;
pub mod encoding;
pub mod processor;

// The cluster's computations on plain values.
pub mod circuit;
pub mod voting;

// The off-chain tally.
pub mod client;
