//! Application-level messages multiplexed onto peers.

use vstd::prelude::*;

verus! {

/// A message handed to the supervisor for delivery to a running peer.
#[derive(Clone, Debug, PartialEq)]
pub struct SendMsg {
    /// The framed payload to write.
    pub bytes: Vec<u8>,
}

/// A message received from a running peer.
#[derive(Clone, Debug, PartialEq)]
pub struct ReceiveMsg {
    /// The framed payload that was read.
    pub bytes: Vec<u8>,
}

} // verus!
