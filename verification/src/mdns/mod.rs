//! Discovery of devices over multicast DNS.
//!
//! Browsing, looking up pairing records and talking to the manager are left to the caller: the
//! state machines here say what to do next, and take in what came of it.

pub mod announce;
pub mod discover;
pub mod resolved;
pub mod retry;
pub mod trace;
