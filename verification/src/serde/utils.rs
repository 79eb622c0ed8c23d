//! Byte-cursor utilities: the primitive readers and writers every composite
//! codec is built from.
//!
//! Readers take the input bytes together with a cursor position; on success
//! the cursor moves past the consumed bytes, on failure it is left where it
//! was.  Every reader is proved to follow the matching `spec_take_*`
//! function of [`super::wire`] exactly, and every writer to append exactly
//! the bytes the matching `spec_encode_*`/`spec_*_le` function describes.

use vstd::prelude::*;
use vstd::utf8::{encode_utf8, valid_utf8};

use super::error::Deserialize;
use super::error::Utf8Error;
use super::wire::{
    spec_bool_byte, spec_encode_blob, spec_encode_text, spec_i8_byte, spec_take_blob,
    spec_take_bool, spec_take_fixed, spec_take_i8, spec_take_text, spec_take_u16, spec_take_u32,
    spec_take_u64, spec_take_u8, spec_u16_le, spec_u32_le, spec_u64_le, spec_utf8_valid_up_to,
};

verus! {

/// Read the next available byte.
pub fn next_byte(bytes: &[u8], pos: &mut usize) -> (r: Result<u8, Deserialize>)
    requires
        *old(pos) <= bytes@.len(),
    ensures
        *final(pos) <= bytes@.len(),
        match (r, spec_take_u8(bytes@.skip(*old(pos) as int))) {
            (Ok(v), Ok(p)) => v == p.0 && *final(pos) == *old(pos) + p.1,
            (Err(e1), Err(e2)) => e1 == e2 && *final(pos) == *old(pos),
            _ => false,
        },
{
    if *pos < bytes.len() {
        let b = bytes[*pos];
        *pos += 1;
        Ok(b)
    } else {
        Err(Deserialize::ExpectedOneMoreByte)
    }
}

/// Read the next `count` bytes, or fail without moving the cursor.
pub fn next_bytes(bytes: &[u8], pos: &mut usize, count: usize) -> (r: Result<Vec<u8>, Deserialize>)
    requires
        *old(pos) <= bytes@.len(),
    ensures
        *final(pos) <= bytes@.len(),
        match (r, spec_take_fixed(bytes@.skip(*old(pos) as int), count as int)) {
            (Ok(v), Ok(p)) => v@ == p.0 && *final(pos) == *old(pos) + p.1,
            (Err(e1), Err(e2)) => e1 == e2 && *final(pos) == *old(pos),
            _ => false,
        },
{
    let start: usize = *pos;
    let rem: usize = bytes.len() - start;
    if rem < count {
        return Err(Deserialize::ExpectedMoreBytes { expected: count as u64, got: rem as u64 });
    }
    let total: usize = bytes.len();
    let mut out: Vec<u8> = Vec::new();
    let mut i: usize = 0;
    while i < count
        invariant
            start + count <= total,
            total == bytes@.len(),
            i <= count,
            out@ == bytes@.subrange(start as int, start + i),
        decreases count - i,
    {
        out.push(bytes[start + i]);
        i += 1;
        proof {
            assert(out@ =~= bytes@.subrange(start as int, start + i));
        }
    }
    *pos = start + count;
    proof {
        assert(out@ =~= bytes@.skip(start as int).take(count as int));
    }
    Ok(out)
}

// ---------------------------------------------------------------------------
// Fixed-width integer writers
// ---------------------------------------------------------------------------

/// Append the two little-endian bytes of `v`.
pub fn serialize_u16(v: u16, buffer: &mut Vec<u8>)
    ensures
        final(buffer)@ == old(buffer)@ + spec_u16_le(v),
{
    buffer.push((v % 256) as u8);
    buffer.push(((v / 256) % 256) as u8);
    proof {
        assert(buffer@ =~= old(buffer)@ + spec_u16_le(v));
    }
}

/// Append the four little-endian bytes of `v`.
pub fn serialize_u32(v: u32, buffer: &mut Vec<u8>)
    ensures
        final(buffer)@ == old(buffer)@ + spec_u32_le(v),
{
    buffer.push((v % 256) as u8);
    buffer.push(((v / 256) % 256) as u8);
    buffer.push(((v / 65536) % 256) as u8);
    buffer.push(((v / 16777216) % 256) as u8);
    proof {
        assert(buffer@ =~= old(buffer)@ + spec_u32_le(v));
    }
}

/// Append the eight little-endian bytes of `v`.
pub fn serialize_u64(v: u64, buffer: &mut Vec<u8>)
    ensures
        final(buffer)@ == old(buffer)@ + spec_u64_le(v),
{
    buffer.push((v % 256) as u8);
    buffer.push(((v / 256) % 256) as u8);
    buffer.push(((v / 65536) % 256) as u8);
    buffer.push(((v / 16777216) % 256) as u8);
    buffer.push(((v / 4294967296) % 256) as u8);
    buffer.push(((v / 1099511627776) % 256) as u8);
    buffer.push(((v / 281474976710656) % 256) as u8);
    buffer.push(((v / 72057594037927936) % 256) as u8);
    proof {
        assert(buffer@ =~= old(buffer)@ + spec_u64_le(v));
    }
}

/// Append the byte that encodes a boolean.
pub fn serialize_bool(v: bool, buffer: &mut Vec<u8>)
    ensures
        final(buffer)@ == old(buffer)@ + seq![spec_bool_byte(v)],
{
    buffer.push(if v { 1 } else { 0 });
    proof {
        assert(buffer@ =~= old(buffer)@ + seq![spec_bool_byte(v)]);
    }
}

/// Append the byte that encodes a signed 8-bit value.
pub fn serialize_i8(v: i8, buffer: &mut Vec<u8>)
    ensures
        final(buffer)@ == old(buffer)@ + seq![spec_i8_byte(v)],
{
    let b: u8 = if v >= 0 {
        v as u8
    } else {
        ((v as i16) + 256) as u8
    };
    buffer.push(b);
    proof {
        assert(buffer@ =~= old(buffer)@ + seq![spec_i8_byte(v)]);
    }
}

/// Append a length-prefixed blob: the 64-bit length, then the raw bytes.
pub fn serialize_blob(blob: &[u8], buffer: &mut Vec<u8>)
    ensures
        final(buffer)@ == old(buffer)@ + spec_encode_blob(blob@),
{
    serialize_u64(blob.len() as u64, buffer);
    let mut i: usize = 0;
    let ghost mid: Seq<u8> = buffer@;
    while i < blob.len()
        invariant
            i <= blob@.len(),
            buffer@ == mid + blob@.subrange(0, i as int),
        decreases blob@.len() - i,
    {
        buffer.push(blob[i]);
        i += 1;
        proof {
            assert(buffer@ =~= mid + blob@.subrange(0, i as int));
        }
    }
    proof {
        assert(blob@.subrange(0, blob@.len() as int) =~= blob@);
        assert(buffer@ =~= old(buffer)@ + spec_encode_blob(blob@));
    }
}

/// Append a text field: the blob of the string's UTF-8 bytes.
pub fn serialize_string(s: &str, buffer: &mut Vec<u8>)
    ensures
        final(buffer)@ == old(buffer)@ + spec_encode_text(s@),
{
    serialize_blob(s.as_bytes(), buffer);
}

// ---------------------------------------------------------------------------
// Fixed-width integer readers
// ---------------------------------------------------------------------------

/// Read a 16-bit little-endian integer.
pub fn deserialize_u16(bytes: &[u8], pos: &mut usize) -> (r: Result<u16, Deserialize>)
    requires
        *old(pos) <= bytes@.len(),
    ensures
        *final(pos) <= bytes@.len(),
        match (r, spec_take_u16(bytes@.skip(*old(pos) as int))) {
            (Ok(v), Ok(p)) => v == p.0 && *final(pos) == *old(pos) + p.1,
            (Err(e1), Err(e2)) => e1 == e2 && *final(pos) == *old(pos),
            _ => false,
        },
{
    let start: usize = *pos;
    let rem: usize = bytes.len() - start;
    if rem < 2 {
        return Err(Deserialize::ExpectedMoreBytes { expected: 2, got: rem as u64 });
    }
    let b0 = bytes[start];
    let b1 = bytes[start + 1];
    *pos = start + 2;
    Ok((b0 as u16) + 256 * (b1 as u16))
}

/// Read a 32-bit little-endian integer.
pub fn deserialize_u32(bytes: &[u8], pos: &mut usize) -> (r: Result<u32, Deserialize>)
    requires
        *old(pos) <= bytes@.len(),
    ensures
        *final(pos) <= bytes@.len(),
        match (r, spec_take_u32(bytes@.skip(*old(pos) as int))) {
            (Ok(v), Ok(p)) => v == p.0 && *final(pos) == *old(pos) + p.1,
            (Err(e1), Err(e2)) => e1 == e2 && *final(pos) == *old(pos),
            _ => false,
        },
{
    let start: usize = *pos;
    let rem: usize = bytes.len() - start;
    if rem < 4 {
        return Err(Deserialize::ExpectedMoreBytes { expected: 4, got: rem as u64 });
    }
    let b0 = bytes[start];
    let b1 = bytes[start + 1];
    let b2 = bytes[start + 2];
    let b3 = bytes[start + 3];
    *pos = start + 4;
    Ok((b0 as u32) + 256 * (b1 as u32) + 65536 * (b2 as u32) + 16777216 * (b3 as u32))
}

/// Read a 64-bit little-endian integer.
pub fn deserialize_u64(bytes: &[u8], pos: &mut usize) -> (r: Result<u64, Deserialize>)
    requires
        *old(pos) <= bytes@.len(),
    ensures
        *final(pos) <= bytes@.len(),
        match (r, spec_take_u64(bytes@.skip(*old(pos) as int))) {
            (Ok(v), Ok(p)) => v == p.0 && *final(pos) == *old(pos) + p.1,
            (Err(e1), Err(e2)) => e1 == e2 && *final(pos) == *old(pos),
            _ => false,
        },
{
    let start: usize = *pos;
    let rem: usize = bytes.len() - start;
    if rem < 8 {
        return Err(Deserialize::ExpectedMoreBytes { expected: 8, got: rem as u64 });
    }
    let b0 = bytes[start];
    let b1 = bytes[start + 1];
    let b2 = bytes[start + 2];
    let b3 = bytes[start + 3];
    let b4 = bytes[start + 4];
    let b5 = bytes[start + 5];
    let b6 = bytes[start + 6];
    let b7 = bytes[start + 7];
    *pos = start + 8;
    Ok(
        (b0 as u64) + 256 * (b1 as u64) + 65536 * (b2 as u64) + 16777216 * (b3 as u64) + 4294967296
            * (b4 as u64) + 1099511627776 * (b5 as u64) + 281474976710656 * (b6 as u64)
            + 72057594037927936 * (b7 as u64),
    )
}

/// Read a signed 8-bit integer.
pub fn deserialize_i8(bytes: &[u8], pos: &mut usize) -> (r: Result<i8, Deserialize>)
    requires
        *old(pos) <= bytes@.len(),
    ensures
        *final(pos) <= bytes@.len(),
        match (r, spec_take_i8(bytes@.skip(*old(pos) as int))) {
            (Ok(v), Ok(p)) => v == p.0 && *final(pos) == *old(pos) + p.1,
            (Err(e1), Err(e2)) => e1 == e2 && *final(pos) == *old(pos),
            _ => false,
        },
{
    let b = match next_byte(bytes, pos) {
        Ok(b) => b,
        Err(e) => {
            return Err(e);
        },
    };
    if b < 128 {
        Ok(b as i8)
    } else {
        Ok(((b as i16) - 256) as i8)
    }
}

/// Read a boolean: one byte that must be `0` or `1`.
pub fn deserialize_bool(bytes: &[u8], pos: &mut usize) -> (r: Result<bool, Deserialize>)
    requires
        *old(pos) <= bytes@.len(),
    ensures
        *final(pos) <= bytes@.len(),
        match (r, spec_take_bool(bytes@.skip(*old(pos) as int))) {
            (Ok(v), Ok(p)) => v == p.0 && *final(pos) == *old(pos) + p.1,
            (Err(e1), Err(e2)) => e1 == e2 && *final(pos) <= *old(pos) + 1,
            _ => false,
        },
{
    let b = match next_byte(bytes, pos) {
        Ok(b) => b,
        Err(e) => {
            return Err(e);
        },
    };
    if b == 0 {
        Ok(false)
    } else if b == 1 {
        Ok(true)
    } else {
        Err(Deserialize::IllegalBoolean(b))
    }
}

/// Read a length-prefixed blob.
pub fn deserialize_blob(bytes: &[u8], pos: &mut usize) -> (r: Result<Vec<u8>, Deserialize>)
    requires
        *old(pos) <= bytes@.len(),
    ensures
        *final(pos) <= bytes@.len(),
        match (r, spec_take_blob(bytes@.skip(*old(pos) as int))) {
            (Ok(v), Ok(p)) => v@ == p.0 && *final(pos) == *old(pos) + p.1,
            (Err(e1), Err(e2)) => e1 == e2 && *final(pos) <= *old(pos) + 8,
            _ => false,
        },
{
    let ghost s: Seq<u8> = bytes@.skip(*old(pos) as int);
    let len: u64 = match deserialize_u64(bytes, pos) {
        Ok(v) => v,
        Err(e) => {
            return Err(e);
        },
    };
    let rem: usize = bytes.len() - *pos;
    if len > rem as u64 {
        return Err(Deserialize::ExpectedMoreBytes { expected: len, got: rem as u64 });
    }
    proof {
        assert(bytes@.skip(*pos as int) =~= s.skip(8));
    }
    let r = next_bytes(bytes, pos, len as usize);
    proof {
        if r is Ok {
            assert(s.skip(8).take(len as int) == spec_take_blob(s)->Ok_0.0);
        }
    }
    r
}

/// Turns a byte buffer into the text it spells, if it is valid UTF-8.
///
/// Relies on `String::from_utf8`: it returns `Ok` exactly when the input is
/// valid UTF-8, the returned string's bytes are the input bytes, and the
/// error reports the length of the longest valid prefix.
#[verifier::external_body]
pub(crate) fn bytes_to_string(bytes: Vec<u8>) -> (r: Result<String, usize>)
    ensures
        match r {
            Ok(s) => valid_utf8(bytes@) && encode_utf8(s@) == bytes@,
            Err(n) => {
                &&& !valid_utf8(bytes@)
                &&& n <= bytes@.len()
                &&& valid_utf8(bytes@.take(n as int))
                &&& forall|i: int| n < i <= bytes@.len() ==> !valid_utf8(bytes@.take(i))
            },
        },
{
    match String::from_utf8(bytes) {
        Ok(s) => Ok(s),
        Err(e) => Err(e.utf8_error().valid_up_to()),
    }
}

/// Largest index bounds pin down [`spec_utf8_valid_up_to`] exactly.
proof fn lemma_valid_up_to_unique(b: Seq<u8>, n: int)
    requires
        0 <= n <= b.len(),
        valid_utf8(b.take(n)),
        forall|i: int| n < i <= b.len() ==> !valid_utf8(b.take(i)),
    ensures
        spec_utf8_valid_up_to(b) == n,
    decreases b.len(),
{
    if valid_utf8(b) {
        assert(b.take(b.len() as int) =~= b);
        assert(n == b.len());
    } else {
        assert(b.len() > 0);
        assert(b.take(b.len() as int) =~= b);
        let c = b.take(b.len() - 1);
        assert forall|i: int| n < i <= c.len() implies !valid_utf8(c.take(i)) by {
            assert(c.take(i) =~= b.take(i));
        }
        assert(n <= c.len());
        assert(c.take(n) =~= b.take(n));
        lemma_valid_up_to_unique(c, n);
    }
}

/// Read a text field: a blob that must hold valid UTF-8.
pub fn deserialize_string(bytes: &[u8], pos: &mut usize) -> (r: Result<String, Deserialize>)
    requires
        *old(pos) <= bytes@.len(),
    ensures
        *final(pos) <= bytes@.len(),
        match (r, spec_take_text(bytes@.skip(*old(pos) as int))) {
            (Ok(v), Ok(p)) => v@ == p.0 && *final(pos) == *old(pos) + p.1,
            (Err(e1), Err(e2)) => e1 == e2,
            _ => false,
        },
{
    let ghost s: Seq<u8> = bytes@.skip(*old(pos) as int);
    let blob: Vec<u8> = match deserialize_blob(bytes, pos) {
        Ok(v) => v,
        Err(e) => {
            return Err(e);
        },
    };
    match bytes_to_string(blob) {
        Ok(text) => {
            proof {
                vstd::utf8::encode_utf8_decode_utf8(text@);
            }
            Ok(text)
        },
        Err(n) => {
            proof {
                lemma_valid_up_to_unique(spec_take_blob(s)->Ok_0.0, n as int);
            }
            Err(Deserialize::IllegalUtf8String(Utf8Error { valid_up_to: n }))
        },
    }
}

} // verus!
