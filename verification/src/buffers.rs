//! The `bytes` crate's buffers, and what the library relies on of them.
//!
//! [`Bytes`] is a shared, immutable run of bytes; [`BytesMut`] is one that grows. What a
//! buffer holds is a plain sequence, and the few operations used here are stated over it.
use bytes::{Bytes, BytesMut};
use vstd::prelude::*;

verus! {

/// The `bytes` crate's immutable buffer.
#[verifier::external_type_specification]
#[verifier::external_body]
pub struct ExBytes(bytes::Bytes);

/// The `bytes` crate's growable buffer.
#[verifier::external_type_specification]
#[verifier::external_body]
pub struct ExBytesMut(bytes::BytesMut);

/// The bytes that a [`Bytes`] holds.
pub uninterp spec fn held(buffer: Bytes) -> Seq<u8>;

/// The bytes that a [`BytesMut`] holds.
pub uninterp spec fn growing(buffer: BytesMut) -> Seq<u8>;

/// The contents of a [`Bytes`] as a slice: `<Bytes as AsRef<[u8]>>::as_ref`, which hands
/// out exactly what the buffer holds. No slice is longer than `isize::MAX` bytes.
#[verifier::external_body]
pub(crate) fn slice_of(buffer: &Bytes) -> (slice: &[u8])
    ensures
        slice@ == held(*buffer),
        slice@.len() <= isize::MAX,
{
    buffer.as_ref()
}

/// The contents of a [`BytesMut`] as a slice: `<BytesMut as AsRef<[u8]>>::as_ref`, which
/// hands out exactly what the buffer holds. No slice is longer than `isize::MAX` bytes.
#[verifier::external_body]
pub(crate) fn slice_of_growing(buffer: &BytesMut) -> (slice: &[u8])
    ensures
        slice@ == growing(*buffer),
        slice@.len() <= isize::MAX,
{
    buffer.as_ref()
}

/// An empty growable buffer: `BytesMut::new`.
#[verifier::external_body]
pub(crate) fn empty_growing() -> (buffer: BytesMut)
    ensures
        growing(buffer) == Seq::<u8>::empty(),
{
    BytesMut::new()
}

/// Append to a growable buffer: `BytesMut::extend_from_slice`, which keeps what was there
/// and puts `more` behind it. It panics where the combined length overflows `usize`.
#[verifier::external_body]
pub(crate) fn extend(buffer: &mut BytesMut, more: &[u8])
    requires
        growing(*old(buffer)).len() + more@.len() <= usize::MAX,
    ensures
        growing(*final(buffer)) == growing(*old(buffer)) + more@,
{
    buffer.extend_from_slice(more)
}

/// Turn a growable buffer into an immutable one: `BytesMut::freeze`, which keeps the
/// contents.
#[verifier::external_body]
pub(crate) fn freeze(buffer: BytesMut) -> (frozen: Bytes)
    ensures
        held(frozen) == growing(buffer),
{
    buffer.freeze()
}

/// An immutable buffer over a vector: `<Bytes as From<Vec<u8>>>::from`, which keeps the
/// contents.
#[verifier::external_body]
pub(crate) fn bytes_from(data: Vec<u8>) -> (buffer: Bytes)
    ensures
        held(buffer) == data@,
{
    Bytes::from(data)
}

} // verus!
