//! The two codecs: client-to-server (writes requests, reads responses) and
//! server-to-client (writes responses, reads requests).
//!
//! Decoding is incremental: a decoder looks at the front of a receive buffer
//! and takes a frame off it only once the whole frame is there.
use crate::buffer::{
    buffer_append, buffer_byte, buffer_bytes, buffer_len, buffer_split_to,
};
use crate::message::{CodecError, IpAddress, Request, Response, SocketAddress};
use crate::wire::{push_u16_be, push_u32_be, u16_be_bytes, u16_from_be, u32_be_bytes, u32_from_be};
use bytes::BytesMut;
use vstd::prelude::*;

verus! {

/// The most addresses a response can carry: the payload length, six bytes per
/// address, must fit in the frame's 32-bit length field.
pub const MAX_RESPONSE_ADDRS: usize = 715827882;

/// The bytes of one address entry: four octets, then the port, big-endian.
pub open spec fn entry_bytes(ip: u32, port: u16) -> Seq<u8> {
    u32_be_bytes(ip) + u16_be_bytes(port)
}

/// The address entry held in the six bytes of `s` from `off` on.
pub open spec fn entry_at(s: Seq<u8>, off: int) -> SocketAddress {
    SocketAddress {
        ip: IpAddress::V4(u32_from_be(s.subrange(off, off + 4))),
        port: u16_from_be(s.subrange(off + 4, off + 6)),
    }
}

/// Whether every address is IPv4.
pub open spec fn all_ipv4(addrs: Seq<SocketAddress>) -> bool {
    forall|i: int| 0 <= i < addrs.len() ==> #[trigger] addrs[i].ip is V4
}

/// The entries of a response's payload, in order.
pub open spec fn payload_bytes(addrs: Seq<SocketAddress>) -> Seq<u8>
    decreases addrs.len(),
{
    if addrs.len() == 0 {
        Seq::empty()
    } else {
        let a = addrs.last();
        payload_bytes(addrs.drop_last()) + match a.ip {
            IpAddress::V4(ip) => entry_bytes(ip, a.port),
            IpAddress::V6(_) => Seq::empty(),
        }
    }
}

/// The frame of a request: its count, big-endian.
pub open spec fn request_frame(req: Request) -> Seq<u8> {
    u32_be_bytes(req.num_addrs)
}

/// The frame of a response of IPv4 addresses: the payload length (six bytes
/// per address), then the entries.
pub open spec fn response_frame(addrs: Seq<SocketAddress>) -> Seq<u8> {
    u32_be_bytes((addrs.len() * 6) as u32) + payload_bytes(addrs)
}

/// Decoding a request from the front of `s`: `None` while fewer than four
/// bytes are there, else the request and the bytes after it.
pub open spec fn request_decoding(s: Seq<u8>) -> Option<(Request, Seq<u8>)> {
    if s.len() < 4 {
        None
    } else {
        Some((Request { num_addrs: u32_from_be(s) }, s.skip(4)))
    }
}

/// The payload length announced by a response header at the front of `s`.
pub open spec fn announced_len(s: Seq<u8>) -> int {
    u32_from_be(s) as int
}

/// Decoding a response from the front of `s`: `Ok(None)` while the header or
/// the payload is incomplete, an error when the payload length is not a
/// multiple of six, else the addresses and the bytes after the frame.
pub open spec fn response_decoding(s: Seq<u8>) -> Result<
    Option<(Seq<SocketAddress>, Seq<u8>)>,
    CodecError,
> {
    if s.len() < 4 {
        Ok(None)
    } else if announced_len(s) % 6 != 0 {
        Err(CodecError::InvalidPayloadLength)
    } else if s.len() < 4 + announced_len(s) {
        Ok(None)
    } else {
        Ok(
            Some(
                (
                    Seq::new((announced_len(s) / 6) as nat, |i: int| entry_at(s, 4 + 6 * i)),
                    s.skip(4 + announced_len(s)),
                ),
            ),
        )
    }
}

/// Reads the big-endian integer in the four bytes from `at` on.
fn read_u32_be(buf: &BytesMut, at: usize) -> (r: u32)
    requires
        at + 4 <= buffer_bytes(*buf).len(),
        at + 4 <= usize::MAX,
    ensures
        r == u32_from_be(buffer_bytes(*buf).subrange(at as int, at + 4)),
{
    let b0 = buffer_byte(buf, at);
    let b1 = buffer_byte(buf, at + 1);
    let b2 = buffer_byte(buf, at + 2);
    let b3 = buffer_byte(buf, at + 3);
    ((b0 as u32) << 24u32) | ((b1 as u32) << 16u32) | ((b2 as u32) << 8u32) | (b3 as u32)
}

/// Reads the big-endian integer in the two bytes from `at` on.
fn read_u16_be(buf: &BytesMut, at: usize) -> (r: u16)
    requires
        at + 2 <= buffer_bytes(*buf).len(),
        at + 2 <= usize::MAX,
    ensures
        r == u16_from_be(buffer_bytes(*buf).subrange(at as int, at + 2)),
{
    let b0 = buffer_byte(buf, at);
    let b1 = buffer_byte(buf, at + 1);
    ((b0 as u16) << 8u16) | (b1 as u16)
}

/// The client's side: writes requests, reads responses.
pub struct ClientToServerCodec;

/// The server's side: writes responses, reads requests.
pub struct ServerToClientCodec;

impl ClientToServerCodec {
    /// Appends the frame of `item` to `buf`. Always succeeds.
    pub fn encode(&mut self, item: Request, buf: &mut BytesMut) -> (r: Result<(), CodecError>)
        ensures
            r == Ok::<(), CodecError>(()),
            buffer_bytes(*final(buf)) == buffer_bytes(*old(buf)) + request_frame(item),
    {
        let mut frame: Vec<u8> = Vec::with_capacity(4);
        push_u32_be(&mut frame, item.num_addrs);
        buffer_append(buf, frame.as_slice());
        Ok(())
    }

    /// Takes the response at the front of `buf` off it, once its whole frame
    /// is there. Until then `buf` is left as it is and `Ok(None)` returned, so
    /// that a later call sees the same header again; a payload length that is
    /// not a multiple of six is an error, and also leaves `buf` as it is.
    pub fn decode(&mut self, buf: &mut BytesMut) -> (r: Result<Option<Response>, CodecError>)
        ensures
            match response_decoding(buffer_bytes(*old(buf))) {
                Err(e) => r == Err::<Option<Response>, CodecError>(e) && buffer_bytes(*final(buf))
                    == buffer_bytes(*old(buf)),
                Ok(None) => r matches Ok(None) && buffer_bytes(*final(buf)) == buffer_bytes(
                    *old(buf),
                ),
                Ok(Some((addrs, rest))) => r matches Ok(Some(resp)) && resp@ == addrs
                    && buffer_bytes(*final(buf)) == rest,
            },
    {
        let ghost s = buffer_bytes(*buf);
        let len = buffer_len(buf);
        if len < 4 {
            // The length field is not all there yet.
            return Ok(None);
        }
        let payload_len = read_u32_be(buf, 0);
        assert(s.subrange(0, 4) =~= s.take(4));
        assert(payload_len as int == announced_len(s));
        if payload_len % 6 != 0 {
            return Err(CodecError::InvalidPayloadLength);
        }
        let num_addrs = (payload_len / 6) as usize;
        if len - 4 < payload_len as usize {
            // The entries are not all there yet.
            return Ok(None);
        }
        let msg_len = 4 + payload_len as usize;
        let mut addrs: Vec<SocketAddress> = Vec::with_capacity(num_addrs);
        let mut offset: usize = 4;
        let mut k: usize = 0;
        while k < num_addrs
            invariant
                buffer_bytes(*buf) == s,
                s.len() == len,
                msg_len == 4 + payload_len,
                msg_len <= len,
                num_addrs * 6 == payload_len,
                k <= num_addrs,
                offset == 4 + 6 * k,
                addrs@.len() == k,
                forall|j: int| 0 <= j < k ==> addrs@[j] == entry_at(s, 4 + 6 * j),
            decreases num_addrs - k,
        {
            let ip = read_u32_be(buf, offset);
            let port = read_u16_be(buf, offset + 4);
            addrs.push(SocketAddress { ip: IpAddress::V4(ip), port });
            offset = offset + 6;
            k = k + 1;
        }
        assert(addrs@ =~= Seq::new(num_addrs as nat, |i: int| entry_at(s, 4 + 6 * i)));
        let _frame = buffer_split_to(buf, msg_len);
        assert(s.subrange(msg_len as int, len as int) =~= s.skip(msg_len as int));
        Ok(Some(Response { addrs }))
    }
}

impl ServerToClientCodec {
    /// Appends the frame of `item` to `buf`. An address that is not IPv4 is
    /// refused, and then nothing is written.
    pub fn encode(&mut self, item: Response, buf: &mut BytesMut) -> (r: Result<(), CodecError>)
        requires
            item@.len() <= MAX_RESPONSE_ADDRS,
        ensures
            all_ipv4(item@) ==> r == Ok::<(), CodecError>(()) && buffer_bytes(*final(buf))
                == buffer_bytes(*old(buf)) + response_frame(item@),
            !all_ipv4(item@) ==> r == Err::<(), CodecError>(CodecError::UnsupportedAddressFamily)
                && buffer_bytes(*final(buf)) == buffer_bytes(*old(buf)),
    {
        let n = item.addrs.len();
        let mut frame: Vec<u8> = Vec::new();
        push_u32_be(&mut frame, (n as u32) * 6);
        let mut i: usize = 0;
        while i < n
            invariant
                n == item@.len(),
                i <= n,
                frame@ == u32_be_bytes((n * 6) as u32) + payload_bytes(item@.take(i as int)),
                all_ipv4(item@.take(i as int)),
            decreases n - i,
        {
            let a = item.addrs[i];
            match a.ip {
                IpAddress::V4(ip) => {
                    push_u32_be(&mut frame, ip);
                    push_u16_be(&mut frame, a.port);
                },
                IpAddress::V6(_) => {
                    assert(!(item@[i as int].ip is V4));
                    return Err(CodecError::UnsupportedAddressFamily);
                },
            }
            assert(item@.take(i + 1).drop_last() =~= item@.take(i as int));
            assert(item@.take(i + 1).last() == a);
            i = i + 1;
            assert(all_ipv4(item@.take(i as int))) by {
                assert forall|j: int| 0 <= j < i implies #[trigger] item@.take(i as int)[j].ip is V4 by {
                    if j < i - 1 {
                        assert(item@.take(i as int)[j] == item@.take(i - 1)[j]);
                    }
                }
            }
        }
        assert(item@.take(n as int) =~= item@);
        buffer_append(buf, frame.as_slice());
        Ok(())
    }

    /// Takes the request at the front of `buf` off it, once its four bytes are
    /// there; until then leaves `buf` as it is and returns `Ok(None)`.
    pub fn decode(&mut self, buf: &mut BytesMut) -> (r: Result<Option<Request>, CodecError>)
        ensures
            match request_decoding(buffer_bytes(*old(buf))) {
                None => r == Ok::<Option<Request>, CodecError>(None) && buffer_bytes(*final(buf))
                    == buffer_bytes(*old(buf)),
                Some((req, rest)) => r == Ok::<Option<Request>, CodecError>(Some(req))
                    && buffer_bytes(*final(buf)) == rest,
            },
    {
        if buffer_len(buf) < 4 {
            return Ok(None);
        }
        let num_addrs = read_u32_be(buf, 0);
        assert(num_addrs == u32_from_be(buffer_bytes(*old(buf))));
        let _frame = buffer_split_to(buf, 4);
        Ok(Some(Request { num_addrs }))
    }
}

} // verus!
