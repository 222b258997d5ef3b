//! Sharing per-repository `.env` files across machines, keyed by commit id,
//! with optional password-derived encryption and a GitHub permission gate.

pub mod text;
pub mod repo;
pub mod error;
pub mod cipher;
pub mod keystore;
pub mod store;
pub mod gate;
pub mod protocol;
pub mod client;
