//! Byte buffers of the `bytes` crate, seen through their contents.
//!
//! Every declaration in this file is believed rather than proved: each one states what
//! the named function of the `bytes` crate does to the contents of a buffer.

use bytes::{Bytes, BytesMut};
use vstd::prelude::*;

verus! {

/// The growable buffer `bytes::BytesMut`.
#[verifier::external_type_specification]
#[verifier::external_body]
pub struct ExBytesMut(BytesMut);

/// The shared, immutable buffer `bytes::Bytes`.
#[verifier::external_type_specification]
#[verifier::external_body]
pub struct ExBytes(Bytes);

/// The bytes a `BytesMut` holds, in order.
pub uninterp spec fn contents(buf: BytesMut) -> Seq<u8>;

/// The bytes a `Bytes` holds, in order.
pub uninterp spec fn frozen(buf: Bytes) -> Seq<u8>;

/// `BytesMut::new` returns an empty buffer.
pub assume_specification[ BytesMut::new ]() -> (buf: BytesMut)
    ensures
        contents(buf) == Seq::<u8>::empty(),
;

/// `BytesMut::len` returns how many bytes the buffer holds.
pub assume_specification[ BytesMut::len ](buf: &BytesMut) -> (n: usize)
    ensures
        n == contents(*buf).len(),
;

/// `BytesMut::extend_from_slice` appends a copy of `extend`. It panics when the new
/// capacity is larger than any allocation can be, which the bound leaves out. Bytes that
/// were taken from the front of a buffer may still count towards its capacity; the bound
/// does not speak of them.
pub assume_specification[ BytesMut::extend_from_slice ](buf: &mut BytesMut, extend: &[u8])
    requires
        contents(*old(buf)).len() + extend@.len() <= isize::MAX,
    ensures
        contents(*final(buf)) == contents(*old(buf)) + extend@,
;

/// A `BytesMut` dereferences to the slice of the bytes it holds.
pub assume_specification<'a>[ <BytesMut as core::ops::Deref>::deref ](buf: &'a BytesMut) -> (s: &'a [u8])
    ensures
        s@ == contents(*buf),
;

/// `BytesMut::freeze` keeps the bytes of the buffer.
pub assume_specification[ BytesMut::freeze ](buf: BytesMut) -> (b: Bytes)
    ensures
        frozen(b) == contents(buf),
;

/// A `Bytes` dereferences to the slice of the bytes it holds.
pub assume_specification<'a>[ <Bytes as core::ops::Deref>::deref ](buf: &'a Bytes) -> (s: &'a [u8])
    ensures
        s@ == frozen(*buf),
;

/// `Bytes::copy_from_slice` holds a copy of the slice.
pub assume_specification[ Bytes::copy_from_slice ](src: &[u8]) -> (b: Bytes)
    ensures
        frozen(b) == src@,
;

/// `Bytes::clone`: another handle on the same octets.
pub assume_specification[ <Bytes as Clone>::clone ](src: &Bytes) -> (b: Bytes)
    ensures
        frozen(b) == frozen(*src),
;

/// `Bytes::slice` over the range that starts at `start`: a handle on the octets from there
/// on. It panics when `start` lies beyond the end.
#[verifier::external_body]
pub(crate) fn slice_from(src: &Bytes, start: usize) -> (b: Bytes)
    requires
        start <= frozen(*src).len(),
    ensures
        frozen(b) == frozen(*src).skip(start as int),
{
    src.slice(start..)
}

} // verus!
