//! The overlay's own application protocol: per-connection stream negotiation
//! and the peers it has run with.
pub mod behaviour;
pub mod config;
pub mod handler;
pub mod upgrade;
