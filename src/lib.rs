//! Command execution core of a Redis-compatible key-value store: per-key
//! locking, type and expiration metadata over an in-memory engine, the
//! generic (`DEL`, `TTL`, `EXISTS`, `EXPIRE`) and hash (`HSET`, `HGET`)
//! command handlers, and the reply encoder.

pub mod bytes_util;
pub mod byte_map;
pub mod resp;
pub mod metadata;
pub mod storage;
pub mod generic_db;
pub mod hash_db;
pub mod lock_manager;
pub mod command;
pub mod error_strings;
pub mod client_state;
pub mod generic_commands;
pub mod hash_commands;
pub mod laws;
