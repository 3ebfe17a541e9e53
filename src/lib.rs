//! Exposes systemd service units and journald log entries through a
//! JSON-RPC tool protocol: request validation, filtering, shaping and the
//! protocol engine that dispatches single and batched messages.

pub mod text;
pub mod errors;
pub mod units;
pub mod utc;
pub mod validate;
pub mod decimal;
pub mod journal;
pub mod json;
pub mod rpc;
pub mod render;
pub mod summary;
pub mod server;
pub mod auth;
pub mod config;
