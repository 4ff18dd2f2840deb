//! A verified core for a webhook-to-RCON bridge: the RCON wire codec and
//! transaction checks, a blinded name-to-command lookup table, and the
//! routing decisions that tie them together. Network and file I/O live
//! outside this crate and hand plain values in and out.

pub mod bytes;
pub mod config;
pub mod error;
pub mod lookup;
pub mod rcon;
pub mod webhook;
