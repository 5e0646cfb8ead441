//! The byte buffers of the `bytes` crate, as far as transfers use them.

use bytes::{Buf, BufMut, Bytes, BytesMut};
use vstd::prelude::*;

verus! {

/// A growable byte buffer with a unique owner.
#[verifier::external_type_specification]
#[verifier::external_body]
pub struct ExBytesMut(bytes::BytesMut);

/// A cheaply cloneable, immutable byte string.
#[verifier::external_type_specification]
#[verifier::external_body]
pub struct ExBytes(bytes::Bytes);

/// The bytes that a `BytesMut` holds.
pub uninterp spec fn buffered(b: BytesMut) -> Seq<u8>;

/// The bytes that a `Bytes` holds.
pub uninterp spec fn frozen(b: Bytes) -> Seq<u8>;

/// A length that a buffer can grow to without overflowing its capacity:
/// growing may take up to a few times the bytes held, and no allocation
/// exceeds `isize::MAX`.
pub open spec fn fits(len: nat) -> bool {
    8 * len <= isize::MAX
}

/// The big-endian bytes of `n`.
pub open spec fn be16(n: u16) -> Seq<u8> {
    seq![(n / 256) as u8, (n % 256) as u8]
}

/// `BytesMut::with_capacity`: a buffer that holds nothing yet.
#[verifier::external_body]
pub(crate) fn with_capacity(capacity: usize) -> (b: BytesMut)
    requires
        fits(capacity as nat),
    ensures
        buffered(b) == Seq::<u8>::empty(),
{
    BytesMut::with_capacity(capacity)
}

/// `BytesMut::new`: a buffer that holds nothing yet.
#[verifier::external_body]
pub(crate) fn new() -> (b: BytesMut)
    ensures
        buffered(b) == Seq::<u8>::empty(),
{
    BytesMut::new()
}

/// `BufMut::put_slice` on a `BytesMut`: appends `src`.
#[verifier::external_body]
pub(crate) fn put_slice(b: &mut BytesMut, src: &[u8])
    requires
        fits(buffered(*old(b)).len() + src@.len()),
    ensures
        buffered(*final(b)) == buffered(*old(b)) + src@,
{
    b.put_slice(src)
}

/// `BufMut::put_u16` on a `BytesMut`: appends `n` in big-endian byte order.
#[verifier::external_body]
pub(crate) fn put_u16(b: &mut BytesMut, n: u16)
    requires
        fits(buffered(*old(b)).len() + 2),
    ensures
        buffered(*final(b)) == buffered(*old(b)) + be16(n),
{
    b.put_u16(n)
}

/// `BufMut::put_u8` on a `BytesMut`: appends the one byte `n`.
#[verifier::external_body]
pub(crate) fn put_u8(b: &mut BytesMut, n: u8)
    requires
        fits(buffered(*old(b)).len() + 1),
    ensures
        buffered(*final(b)) == buffered(*old(b)).push(n),
{
    b.put_u8(n)
}

/// `BufMut::chunk_mut` on a `BytesMut`: how many bytes the room behind the bytes
/// held has. There is always some: where there is none, the call makes room for
/// 64 bytes at least. How much there is beyond that is up to the allocator, so
/// nothing is said of it.
#[verifier::external_body]
pub(crate) fn spare_room(b: &mut BytesMut) -> (room: usize)
    requires
        fits(buffered(*old(b)).len() + 64),
    ensures
        buffered(*final(b)) == buffered(*old(b)),
        room > 0,
{
    b.chunk_mut().len()
}

/// `BytesMut::resize`: cuts the buffer at `new_len`, or fills it up to
/// `new_len` with `value`.
#[verifier::external_body]
pub(crate) fn resize(b: &mut BytesMut, new_len: usize, value: u8)
    requires
        fits(new_len as nat),
    ensures
        buffered(*final(b)) == Seq::new(
            new_len as nat,
            |i: int| if i < buffered(*old(b)).len() { buffered(*old(b))[i] } else { value },
        ),
{
    b.resize(new_len, value)
}

/// `BytesMut::truncate`: keeps the first `len` bytes; no effect where there
/// are not more.
#[verifier::external_body]
pub(crate) fn truncate(b: &mut BytesMut, len: usize)
    ensures
        buffered(*final(b)) == if len <= buffered(*old(b)).len() {
            buffered(*old(b)).take(len as int)
        } else {
            buffered(*old(b))
        },
{
    b.truncate(len)
}

/// `Buf::advance` on a `BytesMut`: drops the first `cnt` bytes. It panics
/// where there are fewer.
#[verifier::external_body]
pub(crate) fn advance(b: &mut BytesMut, cnt: usize)
    requires
        cnt <= buffered(*old(b)).len(),
    ensures
        buffered(*final(b)) == buffered(*old(b)).skip(cnt as int),
{
    b.advance(cnt)
}

/// `BytesMut::clear`: drops all bytes.
#[verifier::external_body]
pub(crate) fn clear(b: &mut BytesMut)
    ensures
        buffered(*final(b)) == Seq::<u8>::empty(),
{
    b.clear()
}

/// `BytesMut::split`: moves all bytes to a new buffer and leaves the old one
/// empty.
#[verifier::external_body]
pub(crate) fn split(b: &mut BytesMut) -> (taken: BytesMut)
    ensures
        buffered(taken) == buffered(*old(b)),
        buffered(*final(b)) == Seq::<u8>::empty(),
{
    b.split()
}

/// `BytesMut::freeze`: the same bytes, no longer to be changed.
#[verifier::external_body]
pub(crate) fn freeze(b: BytesMut) -> (r: Bytes)
    ensures
        frozen(r) == buffered(b),
{
    b.freeze()
}

/// `BytesMut::deref`: the bytes as a slice.
#[verifier::external_body]
pub(crate) fn as_slice(b: &BytesMut) -> (r: &[u8])
    ensures
        r@ == buffered(*b),
{
    b
}

/// `Bytes::len`: how many bytes there are.
#[verifier::external_body]
pub(crate) fn len(b: &Bytes) -> (n: usize)
    ensures
        n == frozen(*b).len(),
{
    b.len()
}

/// `Bytes::clone`: another handle on the same bytes.
#[verifier::external_body]
pub(crate) fn share(b: &Bytes) -> (r: Bytes)
    ensures
        frozen(r) == frozen(*b),
{
    b.clone()
}

} // verus!
