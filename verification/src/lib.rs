//! The decisions of a daemon that finds iOS devices on the network and, on Windows, runs in the
//! place of Apple's own service.
//!
//! [`mdns`] decides what to do about the devices that multicast DNS brings up; [`service`] decides
//! how to take over "Apple Mobile Device Service" and how to give it back. Neither does any I/O:
//! each procedure is a state machine that asks for one thing at a time and takes in what came of
//! it.

pub mod mdns;
pub mod service;
pub mod text;
pub mod utf16;
