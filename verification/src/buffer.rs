//! Message buffers: the `bytes` crate's `Bytes` and `BytesMut`, with the few of their operations
//! that masking and unmasking a message id need.
//!
//! Nothing in this module is proved: it says what the rest of the crate takes for granted about
//! the two buffer types.

use bytes::{Bytes, BytesMut};
use vstd::prelude::*;

verus! {

/// `bytes::Bytes`, an immutable buffer. Verus sees it only through [`bytes_contents`].
#[verifier::external_type_specification]
#[verifier::external_body]
pub struct ExBytes(Bytes);

/// `bytes::BytesMut`, a mutable buffer. Verus sees it only through [`bytes_mut_contents`].
#[verifier::external_type_specification]
#[verifier::external_body]
pub struct ExBytesMut(BytesMut);

/// The bytes that a `Bytes` holds, from its first to its last.
pub uninterp spec fn bytes_contents(b: Bytes) -> Seq<u8>;

/// The bytes that a `BytesMut` holds, from its first to its last.
pub uninterp spec fn bytes_mut_contents(b: BytesMut) -> Seq<u8>;

/// `<Bytes as Deref>::deref`: the buffer read as a slice. The slice is made by
/// `slice::from_raw_parts`, which allows no more than `isize::MAX` bytes.
pub assume_specification[ <Bytes as core::ops::Deref>::deref ](b: &Bytes) -> (s: &[u8])
    ensures
        s@ == bytes_contents(*b),
        s@.len() <= isize::MAX,
;

/// `<BytesMut as Deref>::deref`: the buffer read as a slice.
pub assume_specification[ <BytesMut as core::ops::Deref>::deref ](b: &BytesMut) -> (s: &[u8])
    ensures
        s@ == bytes_mut_contents(*b),
;

/// `BytesMut::zeroed`: a buffer of `len` zero bytes. It panics where a `Vec` of that many bytes
/// would be larger than `isize::MAX`.
pub assume_specification[ BytesMut::zeroed ](len: usize) -> (b: BytesMut)
    requires
        len <= isize::MAX,
    ensures
        bytes_mut_contents(b) == Seq::new(len as nat, |i: int| 0u8),
;

/// `BytesMut::freeze`: the same bytes, from here on immutable.
pub assume_specification[ BytesMut::freeze ](b: BytesMut) -> (frozen: Bytes)
    ensures
        bytes_contents(frozen) == bytes_mut_contents(b),
;

/// `<BytesMut as DerefMut>::deref_mut`: the buffer as a slice to write through. What the slice
/// holds when the borrow ends is what the buffer holds from then on.
#[verifier::external_body]
pub(crate) fn bytes_mut_as_mut_slice(b: &mut BytesMut) -> (s: &mut [u8])
    ensures
        s@ == bytes_mut_contents(*old(b)),
        bytes_mut_contents(*final(b)) == final(s)@,
{
    core::ops::DerefMut::deref_mut(b)
}

} // verus!
