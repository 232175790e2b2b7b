//! Verified core of a chat moderation bot.
//!
//! The library holds the moderation decision pipeline: the durable
//! allowlist of trusted users, the per-user reputation counter, the
//! interpretation of the spam classifier's reply, and the per-message
//! decision engine that combines them. Transport, file and network
//! I/O live outside the library and hand it plain values.

pub mod classifier;
pub mod config;
pub mod decimal;
pub mod engine;
pub mod reputation;
pub mod state;
pub mod telegram;
pub mod text;
pub mod whitelist;
