//! Big-endian integer layout and the byte buffer the codec reads and writes.
//!
//! The buffer is `bytes::BytesMut`. Its contents are modelled as a `Seq<u8>`,
//! oldest byte first: writing appends at the back, reading takes from the
//! front.

use bytes::{Buf, BufMut};
use vstd::prelude::*;

verus! {

/// The four bytes of `n`, most significant first.
pub open spec fn be_u32(n: u32) -> Seq<u8> {
    seq![
        ((n >> 24) & 0xff) as u8,
        ((n >> 16) & 0xff) as u8,
        ((n >> 8) & 0xff) as u8,
        (n & 0xff) as u8,
    ]
}

/// The number whose big-endian bytes are the first four of `s`.
pub open spec fn u32_of_be(s: Seq<u8>) -> u32 {
    ((s[0] as u32) << 24) | ((s[1] as u32) << 16) | ((s[2] as u32) << 8) | (s[3] as u32)
}

/// The eight bytes of `n`, most significant first.
pub open spec fn be_u64(n: u64) -> Seq<u8> {
    seq![
        ((n >> 56) & 0xff) as u8,
        ((n >> 48) & 0xff) as u8,
        ((n >> 40) & 0xff) as u8,
        ((n >> 32) & 0xff) as u8,
        ((n >> 24) & 0xff) as u8,
        ((n >> 16) & 0xff) as u8,
        ((n >> 8) & 0xff) as u8,
        (n & 0xff) as u8,
    ]
}

/// The number whose big-endian bytes are the first eight of `s`.
pub open spec fn u64_of_be(s: Seq<u8>) -> u64 {
    ((s[0] as u64) << 56) | ((s[1] as u64) << 48) | ((s[2] as u64) << 40) | ((s[3] as u64) << 32)
        | ((s[4] as u64) << 24) | ((s[5] as u64) << 16) | ((s[6] as u64) << 8) | (s[7] as u64)
}

/// The eight bytes of `n` in two's complement, most significant first.
pub open spec fn be_i64(n: i64) -> Seq<u8> {
    be_u64(n as u64)
}

/// The signed number whose two's complement big-endian bytes are the first
/// eight of `s`.
pub open spec fn i64_of_be(s: Seq<u8>) -> i64 {
    u64_of_be(s) as i64
}

/// One byte for a truth value: 1 for true, 0 for false.
pub open spec fn bool_byte(b: bool) -> u8 {
    if b {
        1u8
    } else {
        0u8
    }
}

/// Reading back the bytes of a 32-bit number gives the number.
pub proof fn lemma_u32_be_round_trip(n: u32)
    ensures
        be_u32(n).len() == 4,
        u32_of_be(be_u32(n)) == n,
{
    let b0 = ((n >> 24) & 0xff) as u8;
    let b1 = ((n >> 16) & 0xff) as u8;
    let b2 = ((n >> 8) & 0xff) as u8;
    let b3 = (n & 0xff) as u8;
    assert(((b0 as u32) << 24) | ((b1 as u32) << 16) | ((b2 as u32) << 8) | (b3 as u32) == n)
        by (bit_vector)
        requires
            b0 == ((n >> 24) & 0xff) as u8,
            b1 == ((n >> 16) & 0xff) as u8,
            b2 == ((n >> 8) & 0xff) as u8,
            b3 == (n & 0xff) as u8,
    ;
}

/// Reading back the bytes of a 64-bit number gives the number.
pub proof fn lemma_u64_be_round_trip(n: u64)
    ensures
        be_u64(n).len() == 8,
        u64_of_be(be_u64(n)) == n,
{
    let b0 = ((n >> 56) & 0xff) as u8;
    let b1 = ((n >> 48) & 0xff) as u8;
    let b2 = ((n >> 40) & 0xff) as u8;
    let b3 = ((n >> 32) & 0xff) as u8;
    let b4 = ((n >> 24) & 0xff) as u8;
    let b5 = ((n >> 16) & 0xff) as u8;
    let b6 = ((n >> 8) & 0xff) as u8;
    let b7 = (n & 0xff) as u8;
    assert(((b0 as u64) << 56) | ((b1 as u64) << 48) | ((b2 as u64) << 40) | ((b3 as u64) << 32)
        | ((b4 as u64) << 24) | ((b5 as u64) << 16) | ((b6 as u64) << 8) | (b7 as u64) == n)
        by (bit_vector)
        requires
            b0 == ((n >> 56) & 0xff) as u8,
            b1 == ((n >> 48) & 0xff) as u8,
            b2 == ((n >> 40) & 0xff) as u8,
            b3 == ((n >> 32) & 0xff) as u8,
            b4 == ((n >> 24) & 0xff) as u8,
            b5 == ((n >> 16) & 0xff) as u8,
            b6 == ((n >> 8) & 0xff) as u8,
            b7 == (n & 0xff) as u8,
    ;
}

/// Reading back the bytes of a signed 64-bit number gives the number.
pub proof fn lemma_i64_be_round_trip(n: i64)
    ensures
        be_i64(n).len() == 8,
        i64_of_be(be_i64(n)) == n,
{
    lemma_u64_be_round_trip(n as u64);
    assert((n as u64) as i64 == n) by (bit_vector);
}

/// `bytes::BytesMut`, a byte buffer that grows at the back and is read at
/// the front. Nothing is known of its inside; what it holds is `buffered`.
#[verifier::external_type_specification]
#[verifier::external_body]
pub struct ExBytesMut(bytes::BytesMut);

/// The bytes that a buffer holds, the next one to be read first.
pub uninterp spec fn buffered(b: bytes::BytesMut) -> Seq<u8>;

/// `BytesMut::len`: the number of bytes the buffer holds.
pub assume_specification[ bytes::BytesMut::len ](b: &bytes::BytesMut) -> (n: usize)
    ensures
        n == buffered(*b).len(),
;

/// `Buf::chunk` on `BytesMut`: the buffer's bytes as one slice, nothing
/// consumed.
#[verifier::external_body]
pub(crate) fn buffer_bytes(b: &bytes::BytesMut) -> (s: &[u8])
    ensures
        s@ == buffered(*b),
{
    b.chunk()
}

/// `BufMut::put_u8` on `BytesMut`: appends the byte. The buffer must stay
/// within the largest allocation, which `BytesMut` panics beyond.
#[verifier::external_body]
pub(crate) fn put_u8(dst: &mut bytes::BytesMut, n: u8)
    requires
        buffered(*old(dst)).len() + 1 <= isize::MAX,
    ensures
        buffered(*final(dst)) == buffered(*old(dst)).push(n),
{
    dst.put_u8(n)
}

/// `BufMut::put_u32` on `BytesMut`: appends the four bytes of `n`, most
/// significant first.
#[verifier::external_body]
pub(crate) fn put_u32(dst: &mut bytes::BytesMut, n: u32)
    requires
        buffered(*old(dst)).len() + 4 <= isize::MAX,
    ensures
        buffered(*final(dst)) == buffered(*old(dst)) + be_u32(n),
{
    dst.put_u32(n)
}

/// `BufMut::put_u64` on `BytesMut`: appends the eight bytes of `n`, most
/// significant first.
#[verifier::external_body]
pub(crate) fn put_u64(dst: &mut bytes::BytesMut, n: u64)
    requires
        buffered(*old(dst)).len() + 8 <= isize::MAX,
    ensures
        buffered(*final(dst)) == buffered(*old(dst)) + be_u64(n),
{
    dst.put_u64(n)
}

/// `BufMut::put_i64` on `BytesMut`: appends the eight two's complement bytes
/// of `n`, most significant first.
#[verifier::external_body]
pub(crate) fn put_i64(dst: &mut bytes::BytesMut, n: i64)
    requires
        buffered(*old(dst)).len() + 8 <= isize::MAX,
    ensures
        buffered(*final(dst)) == buffered(*old(dst)) + be_i64(n),
{
    dst.put_i64(n)
}

/// `BufMut::put_slice` on `BytesMut`: appends the bytes of `src` in order.
#[verifier::external_body]
pub(crate) fn put_slice(dst: &mut bytes::BytesMut, src: &[u8])
    requires
        buffered(*old(dst)).len() + src@.len() <= isize::MAX,
    ensures
        buffered(*final(dst)) == buffered(*old(dst)) + src@,
{
    dst.put_slice(src)
}

/// `Buf::get_u8` on `BytesMut`: takes the first byte. It panics on an empty
/// buffer, which the precondition leaves out.
#[verifier::external_body]
pub(crate) fn get_u8(src: &mut bytes::BytesMut) -> (n: u8)
    requires
        buffered(*old(src)).len() >= 1,
    ensures
        n == buffered(*old(src))[0],
        buffered(*final(src)) == buffered(*old(src)).skip(1),
{
    src.get_u8()
}

/// `Buf::get_u32` on `BytesMut`: takes the first four bytes and reads them
/// as a big-endian number. It panics on fewer than four bytes.
#[verifier::external_body]
pub(crate) fn get_u32(src: &mut bytes::BytesMut) -> (n: u32)
    requires
        buffered(*old(src)).len() >= 4,
    ensures
        n == u32_of_be(buffered(*old(src))),
        buffered(*final(src)) == buffered(*old(src)).skip(4),
{
    src.get_u32()
}

/// `Buf::get_u64` on `BytesMut`: takes the first eight bytes and reads them
/// as a big-endian number. It panics on fewer than eight bytes.
#[verifier::external_body]
pub(crate) fn get_u64(src: &mut bytes::BytesMut) -> (n: u64)
    requires
        buffered(*old(src)).len() >= 8,
    ensures
        n == u64_of_be(buffered(*old(src))),
        buffered(*final(src)) == buffered(*old(src)).skip(8),
{
    src.get_u64()
}

/// `Buf::get_i64` on `BytesMut`: takes the first eight bytes and reads them
/// as a big-endian two's complement number. It panics on fewer than eight
/// bytes.
#[verifier::external_body]
pub(crate) fn get_i64(src: &mut bytes::BytesMut) -> (n: i64)
    requires
        buffered(*old(src)).len() >= 8,
    ensures
        n == i64_of_be(buffered(*old(src))),
        buffered(*final(src)) == buffered(*old(src)).skip(8),
{
    src.get_i64()
}

/// `Buf::copy_to_slice` on `BytesMut`, into a fresh array of sixteen bytes:
/// takes the first sixteen bytes in order. It panics on fewer.
#[verifier::external_body]
pub(crate) fn get_array16(src: &mut bytes::BytesMut) -> (a: [u8; 16])
    requires
        buffered(*old(src)).len() >= 16,
    ensures
        a@ == buffered(*old(src)).take(16),
        buffered(*final(src)) == buffered(*old(src)).skip(16),
{
    let mut a = [0u8; 16];
    src.copy_to_slice(&mut a[..]);
    a
}

} // verus!
