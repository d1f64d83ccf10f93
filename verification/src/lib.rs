//! Verified core of a small hybrid peer-to-peer signaling network: configuration
//! defaults, the wire framing, password and session checks, the database
//! connection plan, the login service's decisions, the supernode peer directory
//! and the UDP relay table.

pub mod auth;
pub mod codec;
pub mod config;
pub mod database;
pub mod error;
pub mod login;
pub mod outside;
pub mod protocol;
pub mod relay;
pub mod supernode;
