//! The byte buffer that frames are written to and read from.
use bytes::BytesMut;
use vstd::prelude::*;

verus! {

#[verifier::external_type_specification]
#[verifier::external_body]
pub struct ExBytesMut(BytesMut);

/// The bytes held by a buffer, front first.
pub uninterp spec fn buffer_bytes(b: BytesMut) -> Seq<u8>;

/// Relies on `BytesMut::len`: the number of bytes held.
#[verifier::external_body]
pub(crate) fn buffer_len(buf: &BytesMut) -> (r: usize)
    ensures
        r == buffer_bytes(*buf).len(),
{
    buf.len()
}

/// Relies on indexing a `BytesMut` (through its `Deref` to `[u8]`): the byte at `i`.
#[verifier::external_body]
pub(crate) fn buffer_byte(buf: &BytesMut, i: usize) -> (r: u8)
    requires
        i < buffer_bytes(*buf).len(),
    ensures
        r == buffer_bytes(*buf)[i as int],
{
    buf[i]
}

/// Relies on `BytesMut::extend_from_slice`: appends the bytes, growing the
/// buffer first when its capacity is short.
#[verifier::external_body]
pub(crate) fn buffer_append(buf: &mut BytesMut, src: &[u8])
    ensures
        buffer_bytes(*final(buf)) == buffer_bytes(*old(buf)) + src@,
{
    buf.extend_from_slice(src)
}

/// Relies on `BytesMut::split_to`: detaches the first `at` bytes, which are
/// returned, and leaves the rest in the buffer.
#[verifier::external_body]
pub(crate) fn buffer_split_to(buf: &mut BytesMut, at: usize) -> (r: BytesMut)
    requires
        at <= buffer_bytes(*old(buf)).len(),
    ensures
        buffer_bytes(r) == buffer_bytes(*old(buf)).subrange(0, at as int),
        buffer_bytes(*final(buf)) == buffer_bytes(*old(buf)).subrange(
            at as int,
            buffer_bytes(*old(buf)).len() as int,
        ),
{
    buf.split_to(at)
}

} // verus!
