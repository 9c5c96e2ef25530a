//! Per-connection classification input.

use vstd::prelude::*;

use crate::address::SocketAddress;

verus! {

/// Everything the rule engine may look at for one accepted connection:
/// whether the flow is datagram-based, the peer-announced host (raw header
/// bytes, possibly empty), and the source and destination endpoints where
/// known. Built once per connection and read-only afterwards.
#[derive(Clone, Debug)]
pub struct ConnectionMeta {
    pub udp: bool,
    pub host: Vec<u8>,
    pub src_addr: Option<SocketAddress>,
    pub dst_addr: Option<SocketAddress>,
}

impl ConnectionMeta {
    /// Whether a host was announced: true exactly when `host` is non-empty.
    pub fn is_host(&self) -> (r: bool)
        ensures
            r == (self.host@.len() != 0),
    {
        self.host.len() != 0
    }
}

} // verus!
