//! Deployment lifecycle tooling for wasm smart contracts on a Terra-style
//! chain: uploading code, instantiating instances, executing calls (directly
//! or through a multisig governance proposal), querying, and persisting the
//! resulting addresses and code ids in a state document keyed by group and
//! contract name.
//!
//! The signing, broadcasting and RPC transport are external collaborators;
//! this crate holds the decision logic: state-document bookkeeping, message
//! construction, confirmation-poll budgeting, log-attribute extraction and
//! the network settling policy.

pub mod confirm;
pub mod contract;
pub mod error;
pub mod message;
pub mod multisig;
pub mod network;
pub mod state;
