//! An embeddable, single-node key-value store speaking a line-oriented wire
//! protocol: typed commands parsed from decoded protocol tokens, executed
//! against a byte-keyed storage engine with lazy time-to-live expiration,
//! and answered with protocol-formatted reply bytes.

pub mod bytes;
pub mod num;
pub mod resp;
pub mod storage;
pub mod command;
pub mod replies;
pub mod engine;
pub mod laws;
