//! The two messages of the protocol and the addresses they carry.
use crate::wire::u32_from_be;
use vstd::prelude::*;

verus! {

/// An IP address: IPv4 as the 32-bit integer of its four octets (first octet
/// most significant), IPv6 as the 128-bit integer of its sixteen octets.
#[derive(Clone, Copy, Debug, PartialEq, Eq, Structural)]
pub enum IpAddress {
    V4(u32),
    V6(u128),
}

impl IpAddress {
    /// The IPv4 address `a.b.c.d`.
    pub fn v4(a: u8, b: u8, c: u8, d: u8) -> (r: IpAddress)
        ensures
            r == IpAddress::V4(u32_from_be(seq![a, b, c, d])),
    {
        let n: u32 = ((a as u32) << 24u32) | ((b as u32) << 16u32) | ((c as u32) << 8u32) | (d as u32);
        IpAddress::V4(n)
    }

    pub fn is_ipv4(&self) -> (r: bool)
        ensures
            r == (*self is V4),
    {
        match self {
            IpAddress::V4(_) => true,
            IpAddress::V6(_) => false,
        }
    }
}

/// An IP address together with a port.
#[derive(Clone, Copy, Debug, PartialEq, Eq, Structural)]
pub struct SocketAddress {
    pub ip: IpAddress,
    pub port: u16,
}

impl SocketAddress {
    pub fn new(ip: IpAddress, port: u16) -> (r: SocketAddress)
        ensures
            r == (SocketAddress { ip, port }),
    {
        SocketAddress { ip, port }
    }
}

/// A client's request for `num_addrs` random IPv4 socket addresses. A request
/// for none ends the client's session.
#[derive(Clone, Copy, Debug, PartialEq, Eq, Structural)]
pub struct Request {
    pub num_addrs: u32,
}

/// A server's answer: socket addresses, in the order they were generated.
#[derive(Clone, Debug)]
pub struct Response {
    pub addrs: Vec<SocketAddress>,
}

impl View for Response {
    type V = Seq<SocketAddress>;

    open spec fn view(&self) -> Seq<SocketAddress> {
        self.addrs@
    }
}

impl PartialEq for Response {
    fn eq(&self, other: &Response) -> (r: bool) {
        if self.addrs.len() != other.addrs.len() {
            return false;
        }
        let mut i: usize = 0;
        while i < self.addrs.len()
            invariant
                self.addrs@.len() == other.addrs@.len(),
                i <= self.addrs@.len(),
                forall|j: int| 0 <= j < i ==> self.addrs@[j] == other.addrs@[j],
            decreases self.addrs@.len() - i,
        {
            if self.addrs[i] != other.addrs[i] {
                return false;
            }
            i = i + 1;
        }
        assert(self.addrs@ =~= other.addrs@);
        true
    }
}

impl vstd::std_specs::cmp::PartialEqSpecImpl for Response {
    open spec fn obeys_eq_spec() -> bool {
        true
    }

    open spec fn eq_spec(&self, other: &Response) -> bool {
        self.addrs@ == other.addrs@
    }
}

/// What makes a frame impossible to encode or decode.
#[derive(Clone, Copy, Debug, PartialEq, Eq, Structural)]
pub enum CodecError {
    /// A response's payload length is not a multiple of the six bytes of one
    /// address; the stream cannot be resynchronised.
    InvalidPayloadLength,
    /// A response holds an address that is not IPv4.
    UnsupportedAddressFamily,
}

} // verus!
