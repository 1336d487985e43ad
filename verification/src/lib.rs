//! A heterogeneous compute dispatcher: jobs carrying a portable program and
//! an input blob are queued by priority, matched to a compute backend by an
//! adaptive policy, run against a zero-copy memory pool, and their results
//! bound to cryptographic commitments that consumers can verify later.

pub mod backends;
pub mod crypto;
pub mod engine;
pub mod memory;
pub mod prefilter;
pub mod remote_gpu;
pub mod scheduler;
pub mod types;
pub mod verification;
pub mod wasm;
pub mod web3;
