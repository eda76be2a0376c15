//! What holds of the codecs across calls: round trips, partial delivery and
//! several frames in one buffer. Each is stated over the frame layouts and
//! decodings that the codecs' own contracts use.
use crate::codec::{
    all_ipv4, announced_len, entry_at, entry_bytes, payload_bytes, request_decoding,
    request_frame, response_decoding, response_frame, MAX_RESPONSE_ADDRS,
};
use crate::message::{CodecError, IpAddress, Request, SocketAddress};
use crate::wire::{
    lemma_u16_be_round_trip, lemma_u32_be_round_trip, u16_be_bytes, u16_from_be, u32_be_bytes,
    u32_from_be,
};
use vstd::prelude::*;

verus! {

proof fn lemma_all_ipv4_drop_last(addrs: Seq<SocketAddress>)
    requires
        addrs.len() > 0,
        all_ipv4(addrs),
    ensures
        all_ipv4(addrs.drop_last()),
        addrs.last().ip is V4,
{
    let p = addrs.drop_last();
    assert forall|i: int| 0 <= i < p.len() implies #[trigger] p[i].ip is V4 by {
        assert(p[i] == addrs[i]);
    }
    assert(addrs[addrs.len() - 1].ip is V4);
}

/// Each address takes six bytes of the payload.
proof fn lemma_payload_len(addrs: Seq<SocketAddress>)
    requires
        all_ipv4(addrs),
    ensures
        payload_bytes(addrs).len() == 6 * addrs.len(),
    decreases addrs.len(),
{
    if addrs.len() > 0 {
        lemma_all_ipv4_drop_last(addrs);
        lemma_payload_len(addrs.drop_last());
    }
}

/// The `i`-th entry of a payload reads back as the `i`-th address.
proof fn lemma_payload_entry(addrs: Seq<SocketAddress>, i: int)
    requires
        all_ipv4(addrs),
        0 <= i < addrs.len(),
    ensures
        entry_at(payload_bytes(addrs), 6 * i) == addrs[i],
    decreases addrs.len(),
{
    let n = addrs.len() as int;
    let p = addrs.drop_last();
    let a = addrs.last();
    lemma_all_ipv4_drop_last(addrs);
    lemma_payload_len(p);
    let pb = payload_bytes(p);
    let whole = payload_bytes(addrs);
    if let IpAddress::V4(ip) = a.ip {
        assert(whole == pb + entry_bytes(ip, a.port));
        if i < n - 1 {
            lemma_payload_entry(p, i);
            assert(whole.subrange(6 * i, 6 * i + 4) =~= pb.subrange(6 * i, 6 * i + 4));
            assert(whole.subrange(6 * i + 4, 6 * i + 6) =~= pb.subrange(6 * i + 4, 6 * i + 6));
            assert(p[i] == addrs[i]);
        } else {
            assert(whole.subrange(6 * i, 6 * i + 4) =~= u32_be_bytes(ip));
            assert(whole.subrange(6 * i + 4, 6 * i + 6) =~= u16_be_bytes(a.port));
            lemma_u32_be_round_trip(ip);
            lemma_u16_be_round_trip(a.port);
        }
    }
}

/// The first four bytes of `s` decide the integer that `u32_from_be` reads.
proof fn lemma_u32_from_be_prefix(s: Seq<u8>, t: Seq<u8>)
    requires
        s.len() >= 4,
        t.len() >= 4,
        s[0] == t[0] && s[1] == t[1] && s[2] == t[2] && s[3] == t[3],
    ensures
        u32_from_be(s) == u32_from_be(t),
{
}

/// A request's frame, followed by any bytes, decodes to that request and
/// leaves those bytes.
pub proof fn lemma_request_frame_decoding(req: Request, rest: Seq<u8>)
    ensures
        request_decoding(request_frame(req) + rest) == Some((req, rest)),
{
    let f = request_frame(req) + rest;
    lemma_u32_from_be_prefix(f, u32_be_bytes(req.num_addrs));
    lemma_u32_be_round_trip(req.num_addrs);
    assert(f.skip(4) =~= rest);
}

/// Decoding an encoded request gives the request back, for every count.
pub proof fn lemma_request_round_trip(req: Request)
    ensures
        request_decoding(request_frame(req)) == Some((req, Seq::<u8>::empty())),
{
    lemma_request_frame_decoding(req, Seq::empty());
    assert(request_frame(req) + Seq::<u8>::empty() =~= request_frame(req));
}

/// A response's frame, followed by any bytes, decodes to its addresses, in
/// order, and leaves those bytes.
pub proof fn lemma_response_frame_decoding(addrs: Seq<SocketAddress>, rest: Seq<u8>)
    requires
        all_ipv4(addrs),
        addrs.len() <= MAX_RESPONSE_ADDRS,
    ensures
        response_decoding(response_frame(addrs) + rest) == Ok::<
            Option<(Seq<SocketAddress>, Seq<u8>)>,
            CodecError,
        >(Some((addrs, rest))),
{
    let n = addrs.len() as int;
    let m = (n * 6) as u32;
    let pb = payload_bytes(addrs);
    let f = response_frame(addrs) + rest;
    lemma_payload_len(addrs);
    lemma_u32_from_be_prefix(f, u32_be_bytes(m));
    lemma_u32_be_round_trip(m);
    assert(announced_len(f) == 6 * n);
    assert(f.len() == 4 + 6 * n + rest.len());
    let decoded = Seq::new(n as nat, |i: int| entry_at(f, 4 + 6 * i));
    assert forall|i: int| 0 <= i < n implies decoded[i] == addrs[i] by {
        lemma_payload_entry(addrs, i);
        assert(f.subrange(4 + 6 * i, 4 + 6 * i + 4) =~= pb.subrange(6 * i, 6 * i + 4));
        assert(f.subrange(4 + 6 * i + 4, 4 + 6 * i + 6) =~= pb.subrange(6 * i + 4, 6 * i + 6));
    }
    assert(decoded =~= addrs);
    assert(f.skip(4 + 6 * n) =~= rest);
}

/// Decoding an encoded response gives its addresses back, in order.
pub proof fn lemma_response_round_trip(addrs: Seq<SocketAddress>)
    requires
        all_ipv4(addrs),
        addrs.len() <= MAX_RESPONSE_ADDRS,
    ensures
        response_decoding(response_frame(addrs)) == Ok::<
            Option<(Seq<SocketAddress>, Seq<u8>)>,
            CodecError,
        >(Some((addrs, Seq::<u8>::empty()))),
{
    lemma_response_frame_decoding(addrs, Seq::empty());
    assert(response_frame(addrs) + Seq::<u8>::empty() =~= response_frame(addrs));
}

/// However a response's frame is cut, the bytes received so far decode to
/// "need more data" (so the decoder consumes nothing), and once the rest has
/// arrived the buffer decodes to the same addresses as the frame fed whole.
pub proof fn lemma_partial_delivery(addrs: Seq<SocketAddress>, k: int)
    requires
        all_ipv4(addrs),
        addrs.len() <= MAX_RESPONSE_ADDRS,
        0 <= k < response_frame(addrs).len(),
    ensures
        response_decoding(response_frame(addrs).take(k)) == Ok::<
            Option<(Seq<SocketAddress>, Seq<u8>)>,
            CodecError,
        >(None),
        response_decoding(response_frame(addrs).take(k) + response_frame(addrs).skip(k)) == Ok::<
            Option<(Seq<SocketAddress>, Seq<u8>)>,
            CodecError,
        >(Some((addrs, Seq::<u8>::empty()))),
{
    let f = response_frame(addrs);
    let s = f.take(k);
    let m = (addrs.len() * 6) as u32;
    lemma_payload_len(addrs);
    if k >= 4 {
        lemma_u32_from_be_prefix(s, u32_be_bytes(m));
        lemma_u32_be_round_trip(m);
        assert(announced_len(s) == 6 * addrs.len());
    }
    assert(f.take(k) + f.skip(k) =~= f);
    lemma_response_round_trip(addrs);
}

/// Two response frames in one buffer decode, one call after the other, to
/// the two responses in order, and leave the buffer empty.
pub proof fn lemma_two_frames(first: Seq<SocketAddress>, second: Seq<SocketAddress>)
    requires
        all_ipv4(first),
        first.len() <= MAX_RESPONSE_ADDRS,
        all_ipv4(second),
        second.len() <= MAX_RESPONSE_ADDRS,
    ensures
        response_decoding(response_frame(first) + response_frame(second)) == Ok::<
            Option<(Seq<SocketAddress>, Seq<u8>)>,
            CodecError,
        >(Some((first, response_frame(second)))),
        response_decoding(response_frame(second)) == Ok::<
            Option<(Seq<SocketAddress>, Seq<u8>)>,
            CodecError,
        >(Some((second, Seq::<u8>::empty()))),
{
    lemma_response_frame_decoding(first, response_frame(second));
    lemma_response_round_trip(second);
}

/// A complete header whose payload length is not a multiple of six is a
/// protocol error, whatever follows it.
pub proof fn lemma_invalid_payload_length(s: Seq<u8>)
    requires
        s.len() >= 4,
        announced_len(s) % 6 != 0,
    ensures
        response_decoding(s) == Err::<Option<(Seq<SocketAddress>, Seq<u8>)>, CodecError>(
            CodecError::InvalidPayloadLength,
        ),
{
}

} // verus!
