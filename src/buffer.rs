use bytes::BytesMut;
use vstd::prelude::*;

verus! {

#[verifier::external_type_specification]
#[verifier::external_body]
pub struct ExBytesMut(bytes::BytesMut);

/// The bytes that a buffer holds, front first.
pub uninterp spec fn buf_bytes(b: bytes::BytesMut) -> Seq<u8>;

/// Relies on `BytesMut::len`: the number of bytes held.
pub assume_specification[ bytes::BytesMut::len ](b: &bytes::BytesMut) -> (r: usize)
    ensures
        r == buf_bytes(*b).len(),
;

/// Relies on `BytesMut::extend_from_slice`: the bytes are appended after what
/// the buffer holds; it grows the buffer first, and panics only where the new
/// capacity would overflow `usize`.
pub assume_specification[ bytes::BytesMut::extend_from_slice ](
    b: &mut bytes::BytesMut,
    extend: &[u8],
)
    requires
        buf_bytes(*old(b)).len() + extend@.len() <= usize::MAX,
    ensures
        buf_bytes(*final(b)) == buf_bytes(*old(b)) + extend@,
;

/// Relies on `BytesMut::split_to`: the first `n` bytes leave the buffer and are
/// returned in order; it panics only where `n` exceeds the length.
#[verifier::external_body]
pub(crate) fn take_front(src: &mut BytesMut, n: usize) -> (r: Vec<u8>)
    requires
        n <= buf_bytes(*old(src)).len(),
    ensures
        r@ == buf_bytes(*old(src)).take(n as int),
        buf_bytes(*final(src)) == buf_bytes(*old(src)).skip(n as int),
{
    src.split_to(n).to_vec()
}

} // verus!
