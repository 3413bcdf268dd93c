//! The byte buffers of the `bytes` crate, as far as the responses use them.
//! Nothing here is proved: each contract states what the crate's source
//! shows of the function it is about.

use vstd::prelude::*;
use vstd::string::StringSliceAdditionalSpecFns;

verus! {

/// `bytes::BytesMut`, a growable sequence of bytes.
#[verifier::external_type_specification]
#[verifier::external_body]
pub struct ExBytesMut(bytes::BytesMut);

/// `bytes::Bytes`, a sequence of bytes that no longer changes.
#[verifier::external_type_specification]
#[verifier::external_body]
pub struct ExBytes(bytes::Bytes);

/// The bytes that a `BytesMut` holds, in order.
pub uninterp spec fn buffer_bytes(b: bytes::BytesMut) -> Seq<u8>;

/// The bytes that a `Bytes` holds, in order.
pub uninterp spec fn frozen_bytes(b: bytes::Bytes) -> Seq<u8>;

/// `BytesMut::new` returns a buffer that holds nothing.
pub assume_specification[ bytes::BytesMut::new ]() -> (b: bytes::BytesMut)
    ensures
        buffer_bytes(b) == Seq::<u8>::empty(),
;

/// `BytesMut::with_capacity` returns a buffer that holds nothing, whatever
/// room it was asked to keep.
pub assume_specification[ bytes::BytesMut::with_capacity ](capacity: usize) -> (b: bytes::BytesMut)
    ensures
        buffer_bytes(b) == Seq::<u8>::empty(),
;

/// `BytesMut::len` is the number of bytes held.
pub assume_specification[ bytes::BytesMut::len ](b: &bytes::BytesMut) -> (n: usize)
    ensures
        n == buffer_bytes(*b).len(),
;

/// `BytesMut::extend_from_slice` appends a copy of `extend` and keeps what
/// was there.
pub assume_specification[ bytes::BytesMut::extend_from_slice ](
    b: &mut bytes::BytesMut,
    extend: &[u8],
)
    ensures
        buffer_bytes(*final(b)) == buffer_bytes(*old(b)) + extend@,
;

/// `BytesMut::freeze` turns the buffer into a `Bytes` of the same bytes.
pub assume_specification[ bytes::BytesMut::freeze ](b: bytes::BytesMut) -> (r: bytes::Bytes)
    ensures
        frozen_bytes(r) == buffer_bytes(b),
;

/// The clone of a `BytesMut` holds a copy of its bytes.
pub assume_specification[ <bytes::BytesMut as Clone>::clone ](b: &bytes::BytesMut) -> (r:
    bytes::BytesMut)
    ensures
        buffer_bytes(r) == buffer_bytes(*b),
;

/// The bytes of `b` as a slice (`AsRef<[u8]>` of `BytesMut`).
#[verifier::external_body]
pub(crate) fn buffer_slice(b: &bytes::BytesMut) -> (s: &[u8])
    ensures
        s@ == buffer_bytes(*b),
{
    b.as_ref()
}

/// The bytes of `b` as a slice (`AsRef<[u8]>` of `Bytes`).
#[verifier::external_body]
pub(crate) fn frozen_slice(b: &bytes::Bytes) -> (s: &[u8])
    ensures
        s@ == frozen_bytes(*b),
{
    b.as_ref()
}

/// A buffer that holds a copy of `data` (`From<&[u8]>` of `BytesMut`).
#[verifier::external_body]
pub(crate) fn buffer_from(data: &[u8]) -> (b: bytes::BytesMut)
    ensures
        buffer_bytes(b) == data@,
{
    bytes::BytesMut::from(data)
}

/// The bytes that the text `s` is written with.
pub open spec fn text_bytes(s: &str) -> Seq<u8> {
    s.spec_bytes()
}

/// A start for the size of a buffer that is to hold `a` and `b` bytes.
pub fn room(a: usize, b: usize) -> (n: usize)
    ensures
        n == if a + b <= usize::MAX {
            a + b
        } else {
            usize::MAX as int
        },
{
    a.saturating_add(b)
}

} // verus!
