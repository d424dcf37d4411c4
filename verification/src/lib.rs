//! A minimal keyed-record registry with per-user records and a single
//! administrative override.
//!
//! Each user owns exactly one record, located deterministically from the
//! user's identity, holding one 64-bit integer. An administrator, fixed by
//! the first successful `initialize`, may overwrite any user's value.

pub mod address;
pub mod codec;
pub mod error;
pub mod handlers;
pub mod identity;
pub mod laws;
pub mod pda;
pub mod records;
pub mod store;
