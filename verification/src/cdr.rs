//! CDR wire primitives: alignment, little-endian integers, strings and octet
//! sequences, written into a growing buffer and read back from a slice.
//!
//! A serialized sample starts with a 4-byte encapsulation header; alignment is
//! measured from the first byte after it. Positions below are offsets into
//! that body.

use vstd::prelude::*;
use vstd::bytes::{spec_u16_from_le_bytes, spec_u32_from_le_bytes, spec_u32_to_le_bytes, spec_u64_from_le_bytes};
use vstd::string::StringSliceAdditionalSpecFns;
use vstd::utf8::{decode_utf8, encode_utf8, valid_utf8};

verus! {

/// Length of the encapsulation header.
pub const ENCAPSULATION_LEN: usize = 4;

/// Number of padding bytes that bring `pos` to a multiple of `align`.
pub open spec fn pad_len(pos: nat, align: nat) -> nat {
    if align <= 1 {
        0
    } else {
        ((align - pos % align) % (align as int)) as nat
    }
}

/// `n` zero bytes.
pub open spec fn zeros(n: nat) -> Seq<u8> {
    Seq::new(n, |i: int| 0u8)
}

/// `bytes` written at `pos` after the padding that aligns them to `align`.
pub open spec fn aligned(pos: nat, align: nat, bytes: Seq<u8>) -> Seq<u8> {
    zeros(pad_len(pos, align)) + bytes
}

/// Read `n` bytes at `pos` after aligning to `align`: the bytes and the new position.
pub open spec fn read_at(buf: Seq<u8>, pos: nat, align: nat, n: nat) -> Option<(Seq<u8>, nat)> {
    let p = pos + pad_len(pos, align);
    if p + n <= buf.len() {
        Some((buf.subrange(p as int, (p + n) as int), (p + n) as nat))
    } else {
        None
    }
}

/// Little-endian encoding of a `u32`.
pub open spec fn u32_le(x: u32) -> Seq<u8> {
    spec_u32_to_le_bytes(x)
}

/// A `u16` from two bytes in the given byte order.
pub open spec fn u16_from(bytes: Seq<u8>, le: bool) -> u16 {
    if le {
        spec_u16_from_le_bytes(bytes)
    } else {
        spec_u16_from_le_bytes(bytes.reverse())
    }
}

/// A `u32` from four bytes in the given byte order.
pub open spec fn u32_from(bytes: Seq<u8>, le: bool) -> u32 {
    if le {
        spec_u32_from_le_bytes(bytes)
    } else {
        spec_u32_from_le_bytes(bytes.reverse())
    }
}

/// A `u64` from eight bytes in the given byte order.
pub open spec fn u64_from(bytes: Seq<u8>, le: bool) -> u64 {
    if le {
        spec_u64_from_le_bytes(bytes)
    } else {
        spec_u64_from_le_bytes(bytes.reverse())
    }
}

/// A string: its UTF-8 length plus one as a `u32`, the bytes, and a NUL.
pub open spec fn string_write(text: Seq<char>, pos: nat) -> Seq<u8> {
    aligned(pos, 4, u32_le((encode_utf8(text).len() + 1) as u32)) + encode_utf8(text) + seq![0u8]
}

/// An octet sequence: its length as a `u32` and the bytes.
pub open spec fn octets_write(bytes: Seq<u8>, pos: nat) -> Seq<u8> {
    aligned(pos, 4, u32_le(bytes.len() as u32)) + bytes
}

/// Read a length-prefixed string: the length counts the terminating NUL,
/// which must be present; the text must be valid UTF-8.
pub open spec fn string_read(buf: Seq<u8>, pos: nat, le: bool) -> Option<(Seq<char>, nat)> {
    match read_at(buf, pos, 4, 4) {
        Some((lb, p1)) => {
            let n = u32_from(lb, le) as nat;
            if n == 0 || p1 + n > buf.len() {
                None
            } else {
                let content = buf.subrange(p1 as int, (p1 + n) as int);
                let text = content.take(n - 1);
                if content[n - 1] == 0 && valid_utf8(text) {
                    Some((decode_utf8(text), (p1 + n) as nat))
                } else {
                    None
                }
            }
        },
        None => None,
    }
}

/// Read a length-prefixed octet sequence.
pub open spec fn octets_read(buf: Seq<u8>, pos: nat, le: bool) -> Option<(Seq<u8>, nat)> {
    match read_at(buf, pos, 4, 4) {
        Some((lb, p1)) => {
            let n = u32_from(lb, le) as nat;
            if p1 + n > buf.len() {
                None
            } else {
                Some((buf.subrange(p1 as int, (p1 + n) as int), (p1 + n) as nat))
            }
        },
        None => None,
    }
}

/// Current body position of a buffer that starts with the encapsulation header.
pub open spec fn body_pos(out: Seq<u8>) -> nat {
    (out.len() - 4) as nat
}

/// Append `bytes` after the padding that aligns the body position to `align`.
pub fn put_aligned(out: &mut Vec<u8>, align: usize, bytes: &[u8])
    requires
        old(out)@.len() >= 4,
        1 <= align <= 8,
    ensures
        final(out)@ == old(out)@ + aligned(body_pos(old(out)@), align as nat, bytes@),
{
    let ghost start = out@;
    let pos = out.len() - ENCAPSULATION_LEN;
    let pad = if align <= 1 { 0 } else { (align - pos % align) % align };
    let mut i: usize = 0;
    while i < pad
        invariant
            i <= pad,
            pad == pad_len(body_pos(start), align as nat),
            out@ == start + zeros(i as nat),
        decreases pad - i,
    {
        out.push(0u8);
        i += 1;
        assert(out@ =~= start + zeros(i as nat));
    }
    let mut j: usize = 0;
    while j < bytes.len()
        invariant
            j <= bytes@.len(),
            out@ == start + zeros(pad as nat) + bytes@.take(j as int),
        decreases bytes@.len() - j,
    {
        out.push(bytes[j]);
        j += 1;
        assert(out@ =~= start + zeros(pad as nat) + bytes@.take(j as int));
    }
    assert(bytes@.take(j as int) =~= bytes@);
    assert(out@ =~= start + aligned(body_pos(start), align as nat, bytes@));
}

/// Append a `u32` in little-endian order, aligned to 4.
pub fn put_u32(out: &mut Vec<u8>, x: u32)
    requires
        old(out)@.len() >= 4,
    ensures
        final(out)@ == old(out)@ + aligned(body_pos(old(out)@), 4, u32_le(x)),
{
    let b = vstd::bytes::u32_to_le_bytes(x);
    put_aligned(out, 4, b.as_slice());
}

/// Append a string.
pub fn put_string(out: &mut Vec<u8>, s: &str)
    requires
        old(out)@.len() >= 4,
        encode_utf8(s@).len() < u32::MAX,
    ensures
        final(out)@ == old(out)@ + string_write(s@, body_pos(old(out)@)),
{
    let ghost start = out@;
    let bytes = s.as_bytes();
    put_u32(out, (bytes.len() + 1) as u32);
    let ghost mid = out@;
    let mut j: usize = 0;
    while j < bytes.len()
        invariant
            j <= bytes@.len(),
            bytes@ == encode_utf8(s@),
            out@ == mid + bytes@.take(j as int),
        decreases bytes@.len() - j,
    {
        out.push(bytes[j]);
        j += 1;
        assert(out@ =~= mid + bytes@.take(j as int));
    }
    out.push(0u8);
    assert(bytes@.take(j as int) =~= bytes@);
    assert(out@ =~= start + string_write(s@, body_pos(start)));
}

/// Append an octet sequence.
pub fn put_octets(out: &mut Vec<u8>, bytes: &[u8])
    requires
        old(out)@.len() >= 4,
        bytes@.len() <= u32::MAX,
    ensures
        final(out)@ == old(out)@ + octets_write(bytes@, body_pos(old(out)@)),
{
    let ghost start = out@;
    put_u32(out, bytes.len() as u32);
    let ghost mid = out@;
    let mut j: usize = 0;
    while j < bytes.len()
        invariant
            j <= bytes@.len(),
            out@ == mid + bytes@.take(j as int),
        decreases bytes@.len() - j,
    {
        out.push(bytes[j]);
        j += 1;
        assert(out@ =~= mid + bytes@.take(j as int));
    }
    assert(bytes@.take(j as int) =~= bytes@);
    assert(out@ =~= start + octets_write(bytes@, body_pos(start)));
}

/// Read `n` bytes at body position `pos` (the body starts after the header).
pub fn take_at(data: &[u8], pos: usize, align: usize, n: usize) -> (r: Option<(Vec<u8>, usize)>)
    requires
        data@.len() >= 4,
        1 <= align <= 8,
    ensures
        match read_at(data@.skip(4), pos as nat, align as nat, n as nat) {
            Some((b, p)) => r matches Some((v, q)) && v@ == b && q == p,
            None => r is None,
        },
{
    let dl = data.len();
    let body_len = dl - ENCAPSULATION_LEN;
    let pad = if align <= 1 { 0 } else { (align - pos % align) % align };
    if pos > body_len || pad > body_len - pos || n > body_len - pos - pad {
        return None;
    }
    let p = pos + pad;
    let mut out: Vec<u8> = Vec::new();
    let mut j: usize = 0;
    while j < n
        invariant
            j <= n,
            p + n <= body_len,
            dl == data@.len(),
            dl >= 4,
            body_len == dl - 4,
            out@ == data@.skip(4).subrange(p as int, p + j),
        decreases n - j,
    {
        out.push(data[ENCAPSULATION_LEN + p + j]);
        j += 1;
        assert(out@ =~= data@.skip(4).subrange(p as int, p + j));
    }
    Some((out, p + n))
}

/// Read a `u32` in the given byte order.
pub fn take_u32(data: &[u8], pos: usize, le: bool) -> (r: Option<(u32, usize)>)
    requires
        data@.len() >= 4,
    ensures
        match read_at(data@.skip(4), pos as nat, 4, 4) {
            Some((b, p)) => r matches Some((x, q)) && x == u32_from(b, le) && q == p,
            None => r is None,
        },
{
    match take_at(data, pos, 4, 4) {
        Some((b, p)) => {
            if le {
                Some((vstd::bytes::u32_from_le_bytes(b.as_slice()), p))
            } else {
                let rb = reversed(&b);
                Some((vstd::bytes::u32_from_le_bytes(rb.as_slice()), p))
            }
        },
        None => None,
    }
}

/// Read a `u16` in the given byte order.
pub fn take_u16(data: &[u8], pos: usize, le: bool) -> (r: Option<(u16, usize)>)
    requires
        data@.len() >= 4,
    ensures
        match read_at(data@.skip(4), pos as nat, 2, 2) {
            Some((b, p)) => r matches Some((x, q)) && x == u16_from(b, le) && q == p,
            None => r is None,
        },
{
    match take_at(data, pos, 2, 2) {
        Some((b, p)) => {
            if le {
                Some((vstd::bytes::u16_from_le_bytes(b.as_slice()), p))
            } else {
                let rb = reversed(&b);
                Some((vstd::bytes::u16_from_le_bytes(rb.as_slice()), p))
            }
        },
        None => None,
    }
}

/// Read a `u64` in the given byte order, aligned to `align` (8 in XCDR1, 4 in XCDR2).
pub fn take_u64(data: &[u8], pos: usize, align: usize, le: bool) -> (r: Option<(u64, usize)>)
    requires
        data@.len() >= 4,
        1 <= align <= 8,
    ensures
        match read_at(data@.skip(4), pos as nat, align as nat, 8) {
            Some((b, p)) => r matches Some((x, q)) && x == u64_from(b, le) && q == p,
            None => r is None,
        },
{
    match take_at(data, pos, align, 8) {
        Some((b, p)) => {
            if le {
                Some((vstd::bytes::u64_from_le_bytes(b.as_slice()), p))
            } else {
                let rb = reversed(&b);
                Some((vstd::bytes::u64_from_le_bytes(rb.as_slice()), p))
            }
        },
        None => None,
    }
}

/// The bytes in reverse order.
pub fn reversed(b: &Vec<u8>) -> (r: Vec<u8>)
    ensures
        r@ == b@.reverse(),
{
    let mut out: Vec<u8> = Vec::new();
    let mut j: usize = b.len();
    while j > 0
        invariant
            j <= b@.len(),
            out@.len() == b@.len() - j,
            forall|k: int| 0 <= k < out@.len() ==> out@[k] == b@[b@.len() - 1 - k],
        decreases j,
    {
        out.push(b[j - 1]);
        j -= 1;
    }
    assert(out@ =~= b@.reverse());
    out
}

/// Read a string.
pub fn take_string(data: &[u8], pos: usize, le: bool) -> (r: Option<(String, usize)>)
    requires
        data@.len() >= 4,
    ensures
        match string_read(data@.skip(4), pos as nat, le) {
            Some((t, p)) => r matches Some((s, q)) && s@ == t && q == p,
            None => r is None,
        },
{
    let (n, p1) = match take_u32(data, pos, le) {
        Some(x) => x,
        None => return None,
    };
    if n == 0 {
        return None;
    }
    let (content, p2) = match take_at(data, p1, 1, n as usize) {
        Some(x) => x,
        None => return None,
    };
    if content[n as usize - 1] != 0 {
        return None;
    }
    let mut text: Vec<u8> = Vec::new();
    let mut j: usize = 0;
    while j < n as usize - 1
        invariant
            j <= n - 1,
            content@.len() == n,
            text@ == content@.take(j as int),
        decreases n - 1 - j,
    {
        text.push(content[j]);
        j += 1;
        assert(text@ =~= content@.take(j as int));
    }
    match utf8_text(text.as_slice()) {
        Some(s) => Some((s, p2)),
        None => None,
    }
}

/// Read an octet sequence.
pub fn take_octets(data: &[u8], pos: usize, le: bool) -> (r: Option<(Vec<u8>, usize)>)
    requires
        data@.len() >= 4,
    ensures
        match octets_read(data@.skip(4), pos as nat, le) {
            Some((b, p)) => r matches Some((v, q)) && v@ == b && q == p,
            None => r is None,
        },
{
    let (n, p1) = match take_u32(data, pos, le) {
        Some(x) => x,
        None => return None,
    };
    take_at(data, p1, 1, n as usize)
}

/// UTF-8 text of the bytes, when they are valid UTF-8.
///
/// Wraps `std::str::from_utf8`, whose documentation states that it succeeds
/// exactly on valid UTF-8; the contract claims that, and that the text then
/// decodes to the bytes' scalar values.
#[verifier::external_body]
fn utf8_text(bytes: &[u8]) -> (r: Option<String>)
    ensures
        r is Some <==> valid_utf8(bytes@),
        r matches Some(s) ==> s@ == decode_utf8(bytes@),
{
    match std::str::from_utf8(bytes) {
        Ok(s) => Some(s.to_owned()),
        Err(_) => None,
    }
}

} // verus!
