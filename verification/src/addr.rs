//! Transport addresses.
use vstd::prelude::*;

verus! {

/// An IP address with a port.
#[derive(Clone, Copy, Debug, PartialEq, Eq, Structural)]
pub enum SocketAddress {
    V4 { ip: u32, port: u16 },
    V6 { ip6: u128, port: u16, flowinfo: u32, scope_id: u32 },
}

impl View for SocketAddress {
    type V = SocketAddress;

    open spec fn view(&self) -> SocketAddress {
        *self
    }
}

impl SocketAddress {
    /// Whether the address is the wildcard of its family.
    pub open spec fn unspecified(self) -> bool {
        match self {
            SocketAddress::V4 { ip, .. } => ip == 0,
            SocketAddress::V6 { ip6, .. } => ip6 == 0,
        }
    }

    /// Whether the address is the wildcard of its family.
    pub fn is_unspecified(&self) -> (r: bool)
        ensures
            r == self.unspecified(),
    {
        match self {
            SocketAddress::V4 { ip, .. } => *ip == 0,
            SocketAddress::V6 { ip6, .. } => *ip6 == 0,
        }
    }
}

} // verus!
