//! Transfer backend of a cloud-storage client: the chunk planner, the
//! multipart upload engine, the per-transfer signal bus and the supervisor of
//! the download-RPC helper process.

pub mod callback;
pub mod endpoint;
pub mod engine;
pub mod error;
pub mod events;
pub mod hashing;
pub mod model;
pub mod planner;
pub mod scan;
pub mod sidecar;
pub mod signal;
pub mod text;
