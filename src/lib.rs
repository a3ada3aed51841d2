//! A PostgreSQL wire-protocol client core: frame decoding, authentication
//! (cleartext, MD5 and SCRAM-SHA-256), the handshake and query state machines,
//! and a minimal connection cache.
pub mod auth;
pub mod client;
pub mod codec;
pub mod error;
pub mod frontend;
pub mod handshake;
pub mod message;
pub mod params;
pub mod pool;
pub mod query;

pub use client::{Column, Row};
pub use error::{Error, Result};
pub use pool::Pool;
