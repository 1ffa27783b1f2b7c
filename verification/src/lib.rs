//! Client-side core for an operator tool that drives a remote, hardware-isolated
//! signing service holding validator BLS keys.
//!
//! The library covers the logic that must not go wrong: verifying attestation evidence
//! for every returned key, merging slashing-protection ledgers without
//! ever lowering a watermark, and building canonical deposit artifacts. The
//! surrounding plumbing (HTTP transport, file I/O, argument parsing) stays
//! outside.

pub mod attest;
pub mod client_args;
pub mod deposit;
pub mod gateway;
pub mod hexcode;
pub mod leader_api;
pub mod ledger;
pub mod orchestrator;
