//! A rendezvous relay core: rooms that pair two peers under a shared code,
//! a registry of rooms with detach/reattach of write handles, the
//! per-connection session state machine, and the parsing of join requests.

pub mod role;
pub mod room;
pub mod registry;
pub mod params;
pub mod session;
pub mod laws;
