//! The server's side of a session: each request is answered with that many
//! random IPv4 socket addresses.
use crate::codec::all_ipv4;
use crate::message::{IpAddress, Request, Response, SocketAddress};
use vstd::prelude::*;

verus! {

/// Relies on `rand::random`, which draws a value from the thread-local
/// generator. Nothing is promised of the value.
pub assume_specification<T>[ rand::random::<T> ]() -> (r: T)
    where
        rand::distributions::Standard: rand::distributions::Distribution<T>,
;

/// A random IPv4 socket address: four random octets and a random port.
pub fn gen_sock_addr() -> (r: SocketAddress)
    ensures
        r.ip is V4,
{
    let a = rand::random::<u8>();
    let b = rand::random::<u8>();
    let c = rand::random::<u8>();
    let d = rand::random::<u8>();
    let ip = IpAddress::v4(a, b, c, d);
    let port = rand::random::<u16>();
    SocketAddress::new(ip, port)
}

/// The answer to `req`: `req.num_addrs` random IPv4 socket addresses, each
/// drawn on its own.
pub fn respond(req: Request) -> (r: Response)
    ensures
        r@.len() == req.num_addrs,
        all_ipv4(r@),
{
    let mut addrs: Vec<SocketAddress> = Vec::new();
    let mut i: u32 = 0;
    while i < req.num_addrs
        invariant
            i <= req.num_addrs,
            addrs@.len() == i,
            all_ipv4(addrs@),
        decreases req.num_addrs - i,
    {
        addrs.push(gen_sock_addr());
        i = i + 1;
    }
    Response { addrs }
}

} // verus!
