//! Core of a peer-to-peer supervisor: the protocol state machine that turns
//! caller commands and worker reports into events and work orders, the shared
//! connection and peer registries with their disjointness invariant, and the
//! evidence data types carried by the surrounding node.

pub mod evidence;
pub mod message;
pub mod registry;
pub mod supervisor;
pub mod trace;
pub mod transport;
