//! The `bytes` crate's shared byte buffer, as the library sees it.

use vstd::prelude::*;

verus! {

#[verifier::external_type_specification]
#[verifier::external_body]
pub struct ExBytes(bytes::Bytes);

/// What a `bytes::Bytes` buffer holds.
pub uninterp spec fn bytes_view(b: bytes::Bytes) -> Seq<u8>;

/// Calls `bytes::Bytes::new`: an empty buffer.
#[verifier::external_body]
pub(crate) fn bytes_empty() -> (b: bytes::Bytes)
    ensures
        bytes_view(b) == Seq::<u8>::empty(),
{
    bytes::Bytes::new()
}

/// Calls `bytes::Bytes::from::<Vec<u8>>`: the buffer holds exactly the vector's bytes.
#[verifier::external_body]
pub(crate) fn bytes_from_vec(v: Vec<u8>) -> (b: bytes::Bytes)
    ensures
        bytes_view(b) == v@,
{
    bytes::Bytes::from(v)
}

/// Calls `bytes::Bytes::copy_from_slice`: a new buffer holding a copy of the slice.
#[verifier::external_body]
pub(crate) fn bytes_copy_from_slice(s: &[u8]) -> (b: bytes::Bytes)
    ensures
        bytes_view(b) == s@,
{
    bytes::Bytes::copy_from_slice(s)
}

/// `<bytes::Bytes as Clone>::clone` gives a handle to the same bytes. The
/// derived `Clone` of the types that hold a buffer calls it.
pub assume_specification[ <bytes::Bytes as Clone>::clone ](b: &bytes::Bytes) -> (r: bytes::Bytes)
    ensures
        bytes_view(r) == bytes_view(*b),
;

/// Calls `<bytes::Bytes as AsRef<[u8]>>::as_ref`: the slice is the buffer's contents.
#[verifier::external_body]
pub(crate) fn bytes_as_slice(b: &bytes::Bytes) -> (s: &[u8])
    ensures
        s@ == bytes_view(*b),
{
    b.as_ref()
}

#[verifier::external_type_specification]
#[verifier::external_body]
pub struct ExBytesMut(bytes::BytesMut);

/// What a `bytes::BytesMut` buffer holds.
pub uninterp spec fn bytes_mut_view(b: bytes::BytesMut) -> Seq<u8>;

/// Calls `bytes::BytesMut::with_capacity`: an empty buffer.
#[verifier::external_body]
pub(crate) fn bytes_mut_with_capacity(capacity: usize) -> (b: bytes::BytesMut)
    ensures
        bytes_mut_view(b) == Seq::<u8>::empty(),
{
    bytes::BytesMut::with_capacity(capacity)
}

/// Calls `bytes::BytesMut::extend_from_slice`: the slice's bytes are
/// appended. It panics when the new length overflows, which `requires`
/// leaves out.
#[verifier::external_body]
pub(crate) fn bytes_mut_extend(b: &mut bytes::BytesMut, s: &[u8])
    requires
        bytes_mut_view(*old(b)).len() + s@.len() <= isize::MAX,
    ensures
        bytes_mut_view(*final(b)) == bytes_mut_view(*old(b)) + s@,
{
    b.extend_from_slice(s)
}

/// Calls `<bytes::BytesMut as AsRef<[u8]>>::as_ref`: the slice is the
/// buffer's contents.
#[verifier::external_body]
pub(crate) fn bytes_mut_as_slice(b: &bytes::BytesMut) -> (s: &[u8])
    ensures
        s@ == bytes_mut_view(*b),
{
    b.as_ref()
}

/// Calls `<bytes::BytesMut as bytes::Buf>::advance`: the first `n` bytes are
/// dropped. It panics when `n` exceeds the length, which `requires` leaves
/// out.
#[verifier::external_body]
pub(crate) fn bytes_mut_advance(b: &mut bytes::BytesMut, n: usize)
    requires
        n <= bytes_mut_view(*old(b)).len(),
    ensures
        bytes_mut_view(*final(b)) == bytes_mut_view(*old(b)).skip(n as int),
{
    bytes::Buf::advance(b, n)
}

} // verus!
