//! Plain-value network addresses.

use vstd::prelude::*;

verus! {

/// An IP address: four octets in network order, or the 128 bits of an IPv6
/// address as one big-endian integer.
#[derive(Debug, Clone, Copy, PartialEq, Eq, Structural)]
pub enum IpAddress {
    V4(u8, u8, u8, u8),
    V6(u128),
}

/// An IP address with a port.
#[derive(Debug, Clone, Copy, PartialEq, Eq, Structural)]
pub struct SocketAddress {
    pub ip: IpAddress,
    pub port: u16,
}

impl SocketAddress {
    /// The IPv4 endpoint `a.b.c.d:port`.
    pub fn v4(a: u8, b: u8, c: u8, d: u8, port: u16) -> (r: SocketAddress)
        ensures
            r == (SocketAddress { ip: IpAddress::V4(a, b, c, d), port }),
    {
        SocketAddress { ip: IpAddress::V4(a, b, c, d), port }
    }

    pub fn is_ipv4(&self) -> (r: bool)
        ensures
            r == (self.ip is V4),
    {
        match self.ip {
            IpAddress::V4(_, _, _, _) => true,
            IpAddress::V6(_) => false,
        }
    }
}

} // verus!
