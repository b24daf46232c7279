//! Plain data handed to and from the transport, which itself lives outside
//! this library: binding, dialing, and the connections it yields are the
//! caller's side of the contract.

use vstd::prelude::*;

verus! {

/// Where the transport should bind its listener.
#[derive(Clone, Debug, PartialEq)]
pub struct BindInfo {
    /// The local address, in the transport's own notation.
    pub addr: Vec<u8>,
}

/// Which remote the transport should dial.
#[derive(Clone, Debug, PartialEq)]
pub struct ConnectInfo {
    /// The remote address, in the transport's own notation.
    pub addr: Vec<u8>,
}

} // verus!
