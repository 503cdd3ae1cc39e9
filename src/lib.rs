//! Secure command protocol between a maintenance client and a long-running
//! agent: key material, authenticated public-key boxes, wire framing, the
//! command schema, the per-sender key store and the agent's dispatch rules.

pub mod crypto;
pub mod messaging;
pub mod framing;
pub mod keystore;
pub mod server;
pub mod client;
pub mod config;
