//! Wire encoding of CIP and EtherNet/IP integers, and the reads and writes the
//! codecs are built from. The byte-level work is done by the `bytes` crate;
//! the functions here state what each call does to the buffer.

use bytes::{Buf, BufMut};
use vstd::prelude::*;

use vstd::utf8::{decode_utf8, valid_utf8};

use crate::error::{Error, Result};

verus! {

/// The two bytes of `v`, least significant first.
pub open spec fn le16(v: u16) -> Seq<u8> {
    seq![(v % 0x100) as u8, (v / 0x100) as u8]
}

/// The four bytes of `v`, least significant first.
pub open spec fn le32(v: u32) -> Seq<u8> {
    seq![
        (v % 0x100) as u8,
        ((v / 0x100) % 0x100) as u8,
        ((v / 0x1_0000) % 0x100) as u8,
        (v / 0x100_0000) as u8,
    ]
}

/// The eight bytes of `v`, least significant first.
pub open spec fn le64(v: u64) -> Seq<u8> {
    le32((v % 0x1_0000_0000) as u32) + le32((v / 0x1_0000_0000) as u32)
}

/// The two bytes of `v`, most significant first.
pub open spec fn be16(v: u16) -> Seq<u8> {
    seq![(v / 0x100) as u8, (v % 0x100) as u8]
}

/// The four bytes of `v`, most significant first.
pub open spec fn be32(v: u32) -> Seq<u8> {
    seq![
        (v / 0x100_0000) as u8,
        ((v / 0x1_0000) % 0x100) as u8,
        ((v / 0x100) % 0x100) as u8,
        (v % 0x100) as u8,
    ]
}

/// The value of the first two bytes of `b`, little-endian.
pub open spec fn from_le16(b: Seq<u8>) -> u16 {
    (b[0] + 0x100 * b[1]) as u16
}

/// The value of the first four bytes of `b`, little-endian.
pub open spec fn from_le32(b: Seq<u8>) -> u32 {
    (b[0] + 0x100 * b[1] + 0x1_0000 * b[2] + 0x100_0000 * b[3]) as u32
}

/// The value of the first eight bytes of `b`, little-endian.
pub open spec fn from_le64(b: Seq<u8>) -> u64 {
    (from_le32(b) + 0x1_0000_0000 * from_le32(b.skip(4))) as u64
}

/// The value of the first two bytes of `b`, big-endian.
pub open spec fn from_be16(b: Seq<u8>) -> u16 {
    (0x100 * b[0] + b[1]) as u16
}

/// The value of the first four bytes of `b`, big-endian.
pub open spec fn from_be32(b: Seq<u8>) -> u32 {
    (0x100_0000 * b[0] + 0x1_0000 * b[1] + 0x100 * b[2] + b[3]) as u32
}

/// `n` copies of `val`.
pub open spec fn repeat(val: u8, n: nat) -> Seq<u8> {
    Seq::new(n, |_i: int| val)
}

/// Reading back what was written gives the value.
pub proof fn lemma_le16(v: u16)
    ensures
        le16(v).len() == 2,
        from_le16(le16(v)) == v,
{
}

pub proof fn lemma_le32(v: u32)
    ensures
        le32(v).len() == 4,
        from_le32(le32(v)) == v,
{
}

pub proof fn lemma_le64(v: u64)
    ensures
        le64(v).len() == 8,
        from_le64(le64(v)) == v,
{
    let lo = (v % 0x1_0000_0000) as u32;
    let hi = (v / 0x1_0000_0000) as u32;
    lemma_le32(lo);
    lemma_le32(hi);
    assert(le64(v).skip(4) =~= le32(hi));
    assert(le64(v).take(4) =~= le32(lo));
}

// ---- Writes (BufMut for Vec<u8>) ----

/// `BufMut::put_u8`: appends `v`.
#[verifier::external_body]
pub(crate) fn put_u8(out: &mut Vec<u8>, v: u8)
    ensures
        final(out)@ == old(out)@.push(v),
{
    out.put_u8(v)
}

/// `BufMut::put_u16_le`: appends the two little-endian bytes of `v`.
#[verifier::external_body]
pub(crate) fn put_u16_le(out: &mut Vec<u8>, v: u16)
    ensures
        final(out)@ == old(out)@ + le16(v),
{
    out.put_u16_le(v)
}

/// `BufMut::put_u32_le`: appends the four little-endian bytes of `v`.
#[verifier::external_body]
pub(crate) fn put_u32_le(out: &mut Vec<u8>, v: u32)
    ensures
        final(out)@ == old(out)@ + le32(v),
{
    out.put_u32_le(v)
}

/// `BufMut::put_u16`: appends the two big-endian bytes of `v`.
#[verifier::external_body]
pub(crate) fn put_u16_be(out: &mut Vec<u8>, v: u16)
    ensures
        final(out)@ == old(out)@ + be16(v),
{
    out.put_u16(v)
}

/// `BufMut::put_u32`: appends the four big-endian bytes of `v`.
#[verifier::external_body]
pub(crate) fn put_u32_be(out: &mut Vec<u8>, v: u32)
    ensures
        final(out)@ == old(out)@ + be32(v),
{
    out.put_u32(v)
}

/// `BufMut::put_slice`: appends the bytes of `src`.
#[verifier::external_body]
pub(crate) fn put_slice(out: &mut Vec<u8>, src: &[u8])
    ensures
        final(out)@ == old(out)@ + src@,
{
    out.put_slice(src)
}

/// `BufMut::put_bytes`: appends `cnt` copies of `val`.
#[verifier::external_body]
pub(crate) fn put_bytes(out: &mut Vec<u8>, val: u8, cnt: usize)
    ensures
        final(out)@ == old(out)@ + repeat(val, cnt as nat),
{
    out.put_bytes(val, cnt)
}

// ---- Reads (Buf for &[u8]) ----

/// `Buf::get_u8`: the first byte; the slice advances past it. Panics on an
/// empty slice, which `requires` rules out.
#[verifier::external_body]
pub(crate) fn get_u8(buf: &mut &[u8]) -> (v: u8)
    requires
        old(buf)@.len() >= 1,
    ensures
        v == old(buf)@[0],
        final(buf)@ == old(buf)@.skip(1),
{
    buf.get_u8()
}

/// `Buf::get_u16_le`: the first two bytes, little-endian; the slice advances
/// past them. Panics on a shorter slice, which `requires` rules out.
#[verifier::external_body]
pub(crate) fn get_u16_le(buf: &mut &[u8]) -> (v: u16)
    requires
        old(buf)@.len() >= 2,
    ensures
        v == from_le16(old(buf)@),
        final(buf)@ == old(buf)@.skip(2),
{
    buf.get_u16_le()
}

/// `Buf::get_u32_le`: the first four bytes, little-endian; the slice advances
/// past them. Panics on a shorter slice, which `requires` rules out.
#[verifier::external_body]
pub(crate) fn get_u32_le(buf: &mut &[u8]) -> (v: u32)
    requires
        old(buf)@.len() >= 4,
    ensures
        v == from_le32(old(buf)@),
        final(buf)@ == old(buf)@.skip(4),
{
    buf.get_u32_le()
}

/// `Buf::get_u64_le`: the first eight bytes, little-endian; the slice
/// advances past them. Panics on a shorter slice, which `requires` rules out.
#[verifier::external_body]
pub(crate) fn get_u64_le(buf: &mut &[u8]) -> (v: u64)
    requires
        old(buf)@.len() >= 8,
    ensures
        v == from_le64(old(buf)@),
        final(buf)@ == old(buf)@.skip(8),
{
    buf.get_u64_le()
}

/// `Buf::get_u16`: the first two bytes, big-endian; the slice advances past
/// them. Panics on a shorter slice, which `requires` rules out.
#[verifier::external_body]
pub(crate) fn get_u16_be(buf: &mut &[u8]) -> (v: u16)
    requires
        old(buf)@.len() >= 2,
    ensures
        v == from_be16(old(buf)@),
        final(buf)@ == old(buf)@.skip(2),
{
    buf.get_u16()
}

/// `Buf::get_u32`: the first four bytes, big-endian; the slice advances past
/// them. Panics on a shorter slice, which `requires` rules out.
#[verifier::external_body]
pub(crate) fn get_u32_be(buf: &mut &[u8]) -> (v: u32)
    requires
        old(buf)@.len() >= 4,
    ensures
        v == from_be32(old(buf)@),
        final(buf)@ == old(buf)@.skip(4),
{
    buf.get_u32()
}

/// `Buf::advance`: drops the first `n` bytes. Panics when `n` is more than
/// the slice holds, which `requires` rules out.
#[verifier::external_body]
pub(crate) fn advance(buf: &mut &[u8], n: usize)
    requires
        n <= old(buf)@.len(),
    ensures
        final(buf)@ == old(buf)@.skip(n as int),
{
    buf.advance(n)
}

// ---- Checked reads ----

/// The error a read of `requested` bytes gives when only `available` are left.
pub open spec fn truncated(requested: usize, available: nat) -> Error {
    Error::Truncated { requested, available: available as usize }
}

/// Reads one byte, or reports how many were missing.
pub fn try_get_u8(buf: &mut &[u8]) -> (r: Result<u8>)
    ensures
        old(buf)@.len() >= 1 ==> r == Ok::<u8, Error>(old(buf)@[0]) && final(buf)@ == old(buf)@.skip(1),
        old(buf)@.len() < 1 ==> r == Err::<u8, Error>(truncated(1, old(buf)@.len())) && final(buf)@ == old(buf)@,
{
    if buf.len() < 1 {
        return Err(Error::Truncated { requested: 1, available: buf.len() });
    }
    Ok(get_u8(buf))
}

/// Reads a little-endian 16-bit value, or reports how many bytes were missing.
pub fn try_get_u16_le(buf: &mut &[u8]) -> (r: Result<u16>)
    ensures
        old(buf)@.len() >= 2 ==> r == Ok::<u16, Error>(from_le16(old(buf)@)) && final(buf)@ == old(buf)@.skip(2),
        old(buf)@.len() < 2 ==> r == Err::<u16, Error>(truncated(2, old(buf)@.len())) && final(buf)@ == old(buf)@,
{
    if buf.len() < 2 {
        return Err(Error::Truncated { requested: 2, available: buf.len() });
    }
    Ok(get_u16_le(buf))
}

/// Reads a little-endian 32-bit value, or reports how many bytes were missing.
pub fn try_get_u32_le(buf: &mut &[u8]) -> (r: Result<u32>)
    ensures
        old(buf)@.len() >= 4 ==> r == Ok::<u32, Error>(from_le32(old(buf)@)) && final(buf)@ == old(buf)@.skip(4),
        old(buf)@.len() < 4 ==> r == Err::<u32, Error>(truncated(4, old(buf)@.len())) && final(buf)@ == old(buf)@,
{
    if buf.len() < 4 {
        return Err(Error::Truncated { requested: 4, available: buf.len() });
    }
    Ok(get_u32_le(buf))
}

/// Reads a little-endian 64-bit value, or reports how many bytes were missing.
pub fn try_get_u64_le(buf: &mut &[u8]) -> (r: Result<u64>)
    ensures
        old(buf)@.len() >= 8 ==> r == Ok::<u64, Error>(from_le64(old(buf)@)) && final(buf)@ == old(buf)@.skip(8),
        old(buf)@.len() < 8 ==> r == Err::<u64, Error>(truncated(8, old(buf)@.len())) && final(buf)@ == old(buf)@,
{
    if buf.len() < 8 {
        return Err(Error::Truncated { requested: 8, available: buf.len() });
    }
    Ok(get_u64_le(buf))
}

/// Takes the next `len` bytes, or reports how many were missing.
pub fn try_get_vec(buf: &mut &[u8], len: usize) -> (r: Result<Vec<u8>>)
    ensures
        old(buf)@.len() >= len ==> (r matches Ok(v) && v@ == old(buf)@.take(len as int))
            && final(buf)@ == old(buf)@.skip(len as int),
        old(buf)@.len() < len ==> r == Err::<Vec<u8>, Error>(truncated(len, old(buf)@.len()))
            && final(buf)@ == old(buf)@,
{
    if buf.len() < len {
        return Err(Error::Truncated { requested: len, available: buf.len() });
    }
    let v = vstd::slice::slice_to_vec(vstd::slice::slice_subrange(*buf, 0, len));
    advance(buf, len);
    Ok(v)
}

/// Skips the next `len` bytes, or reports how many were missing.
pub fn try_skip(buf: &mut &[u8], len: usize) -> (r: Result<()>)
    ensures
        old(buf)@.len() >= len ==> r is Ok && final(buf)@ == old(buf)@.skip(len as int),
        old(buf)@.len() < len ==> r == Err::<(), Error>(truncated(len, old(buf)@.len()))
            && final(buf)@ == old(buf)@,
{
    if buf.len() < len {
        return Err(Error::Truncated { requested: len, available: buf.len() });
    }
    advance(buf, len);
    Ok(())
}

/// What `String::from_utf8_lossy` makes of `bytes`: their text, with each
/// invalid UTF-8 sequence replaced by U+FFFD. It depends on the bytes alone.
pub uninterp spec fn lossy_text(bytes: Seq<u8>) -> Seq<char>;

/// `String::from_utf8_lossy`: the text of `bytes` ([`lossy_text`]); for
/// valid UTF-8, exactly the decoded characters.
#[verifier::external_body]
pub(crate) fn utf8_lossy(bytes: &[u8]) -> (s: String)
    ensures
        s@ == lossy_text(bytes@),
        valid_utf8(bytes@) ==> s@ == decode_utf8(bytes@),
{
    String::from_utf8_lossy(bytes).into_owned()
}

/// Reads a CIP SHORT_STRING: a length byte, then that many bytes of text.
pub fn try_get_short_string(buf: &mut &[u8]) -> (r: Result<String>)
    ensures
        old(buf)@.len() >= 1 && old(buf)@.len() - 1 >= old(buf)@[0] ==> (r matches Ok(s)
            && s@ == lossy_text(old(buf)@.subrange(1, 1 + old(buf)@[0]))
            && (valid_utf8(old(buf)@.subrange(1, 1 + old(buf)@[0])) ==> s@ == decode_utf8(old(buf)@.subrange(1, 1 + old(buf)@[0]))))
            && final(buf)@ == old(buf)@.skip(1 + old(buf)@[0]),
        old(buf)@.len() < 1 ==> r == Err::<String, Error>(truncated(1, 0)),
        old(buf)@.len() >= 1 && old(buf)@.len() - 1 < old(buf)@[0] ==> r == Err::<String, Error>(truncated(old(buf)@[0] as usize, (old(buf)@.len() - 1) as nat)),
{
    let ghost start = buf@;
    let len = match try_get_u8(buf) {
        Ok(l) => l as usize,
        Err(e) => return Err(e),
    };
    let bytes = match try_get_vec(buf, len) {
        Ok(b) => b,
        Err(e) => return Err(e),
    };
    assert(bytes@ =~= start.subrange(1, 1 + len));
    assert(buf@ =~= start.skip(1 + len));
    Ok(utf8_lossy(bytes.as_slice()))
}

} // verus!
