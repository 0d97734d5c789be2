//! Gates that a delivery passes before its payload is trusted.

pub mod github;
pub mod signature;
