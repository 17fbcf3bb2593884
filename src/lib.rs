//! Write path of a key-value anchoring service: personas attach JSON patches to
//! platform identities, and each mutation becomes a link of a per-persona,
//! tamper-evident hash chain.
pub mod chain;
pub mod codec;
pub mod config;
pub mod crypto;
pub mod error;
pub mod gate;
pub mod payload;

pub use error::KvError;
