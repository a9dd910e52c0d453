//! Synchronization of a locally maintained ledger (L2) against an
//! authoritative settlement chain (L1).
//!
//! The library holds the decision logic of the three watchers — the state
//! update reconciler, the gas price tracker and the bridge message ingestor —
//! together with the orchestrator policy that joins them under one
//! cancellation domain, the shared retry/backoff helper, and the request
//! parsing and response shaping of the gateway that serves the synchronized
//! state. Network and storage access is left to the caller, which feeds the
//! functions here with the plain values it read and carries out the actions
//! they decide.

pub mod backoff;
pub mod cancel;
pub mod errors;
pub mod felt_hex;
pub mod gateway;
pub mod gas_price;
pub mod ingestor;
pub mod orchestrator;
pub mod params;
pub mod reconciler;
pub mod rpc;
pub mod types;
