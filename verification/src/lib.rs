//! Observation of one state transition inside a running application.
//!
//! An agent placed inside the target process intercepts one function, follows
//! a chain of pointers to the record of interest, and streams the value it
//! sees to a host controller, which relays it onward. This library holds the
//! rules of that system: how the pointer chain is followed, which states the
//! hook may be in, how events are framed on the wire, how the endpoints are
//! read from the configuration, and in which order the two processes start
//! and stop.

pub mod chase;
pub mod config;
pub mod hook;
pub mod session;
pub mod wire;
