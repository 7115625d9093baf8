//! Executable CDR writer and reader for runtime-defined samples, proved
//! against the encoding in `codec_spec`.

use vstd::prelude::*;
use vstd::string::StringSliceAdditionalSpecFns;

use crate::cdr::{
    body_pos, put_aligned, put_octets, put_string, put_u32, take_at, take_octets, take_string, take_u16, take_u32,
    take_u64,
};
use crate::codec_spec::{
    de_fields, de_items, de_value, scalar_read,
    bulk_write, is_bulk_type, is_scalar_type, keep_matching, scalar_matches, scalar_write,
    scalars_write, ser_fields, ser_items, ser_value, SpecCodecError,
};
use crate::data::{
    lemma_opt_views_push, lemma_seq_views_push, lemma_views_empty, opt_views, seq_views, value_view, FieldValue,
    Int2DdsData, SpecValue,
};
use crate::type_descriptor::{FieldDescriptor, FieldTypeInfo};

verus! {

/// Why a value cannot be written.
#[derive(Debug)]
pub enum CodecError {
    /// A required field has no value.
    MissingField(String),
    /// A value does not have the shape of its type.
    TypeMismatch,
    /// A length does not fit the `u32` length field.
    TooLarge,
}

/// The specification-level error of a codec error.
pub open spec fn codec_error_spec(e: CodecError) -> SpecCodecError {
    match e {
        CodecError::MissingField(n) => SpecCodecError::Missing(n@),
        CodecError::TypeMismatch => SpecCodecError::Mismatch,
        CodecError::TooLarge => SpecCodecError::TooLarge,
    }
}

/// `r` is the executable outcome of writing with specified outcome `s` from `start`.
pub open spec fn write_outcome(
    s: Result<Seq<u8>, SpecCodecError>,
    r: Result<(), CodecError>,
    start: Seq<u8>,
    end: Seq<u8>,
) -> bool {
    match s {
        Ok(b) => r is Ok && end == start + b,
        Err(e) => r matches Err(ce) && codec_error_spec(ce) == e,
    }
}

/// `after` starts with `before`: writing only appended to the buffer.
pub open spec fn grows(before: Seq<u8>, after: Seq<u8>) -> bool {
    before.len() <= after.len() && after.take(before.len() as int) == before
}

/// A buffer starts with itself.
pub proof fn lemma_grows_refl(a: Seq<u8>)
    ensures
        grows(a, a),
{
    assert(a.take(a.len() as int) =~= a);
}

/// Appending keeps what was there.
pub proof fn lemma_grows_append(a: Seq<u8>, b: Seq<u8>)
    ensures
        grows(a, a + b),
{
    assert((a + b).take(a.len() as int) =~= a);
}

/// Growing twice is growing.
pub proof fn lemma_grows_trans(a: Seq<u8>, b: Seq<u8>, c: Seq<u8>)
    requires
        grows(a, b),
        grows(b, c),
    ensures
        grows(a, c),
{
    assert forall|i: int| 0 <= i < a.len() implies c.take(a.len() as int)[i] == a[i] by {
        assert(c.take(b.len() as int)[i] == b[i]);
        assert(b.take(a.len() as int)[i] == a[i]);
    }
    assert(c.take(a.len() as int) =~= a);
}

/// Whether a value has the shape a type is written from after a header:
/// a sequence (or byte buffer) for a sequence type, an array for an array
/// type, a struct for a struct type.
pub open spec fn writes_before_failing(v: FieldValue, t: FieldTypeInfo) -> bool {
    ||| (t is Sequence && (v is Sequence || v is Bytes))
    ||| (t is Array && v is Array)
    ||| (t is Struct && v is Struct)
}

/// Whether `t` is a fixed-size scalar type.
pub fn is_scalar(t: &FieldTypeInfo) -> (r: bool)
    ensures
        r == is_scalar_type(*t),
{
    match t {
        FieldTypeInfo::Bool | FieldTypeInfo::Int8 | FieldTypeInfo::UInt8 | FieldTypeInfo::Int16
        | FieldTypeInfo::UInt16 | FieldTypeInfo::Int32 | FieldTypeInfo::UInt32
        | FieldTypeInfo::Int64 | FieldTypeInfo::UInt64 | FieldTypeInfo::Float32
        | FieldTypeInfo::Float64 => true,
        _ => false,
    }
}

/// Whether sequences of `t` are written in bulk.
pub fn is_bulk(t: &FieldTypeInfo) -> (r: bool)
    ensures
        r == is_bulk_type(*t),
{
    match t {
        FieldTypeInfo::UInt8 => false,
        _ => is_scalar(t),
    }
}

/// Whether `v` is a scalar of type `t`.
pub fn scalar_fits(v: &FieldValue, t: &FieldTypeInfo) -> (r: bool)
    ensures
        r == scalar_matches(v@, *t),
{
    match (v, t) {
        (FieldValue::Bool(_), FieldTypeInfo::Bool) => true,
        (FieldValue::Int8(_), FieldTypeInfo::Int8) => true,
        (FieldValue::UInt8(_), FieldTypeInfo::UInt8) => true,
        (FieldValue::Int16(_), FieldTypeInfo::Int16) => true,
        (FieldValue::UInt16(_), FieldTypeInfo::UInt16) => true,
        (FieldValue::Int32(_), FieldTypeInfo::Int32) => true,
        (FieldValue::UInt32(_), FieldTypeInfo::UInt32) => true,
        (FieldValue::Int64(_), FieldTypeInfo::Int64) => true,
        (FieldValue::UInt64(_), FieldTypeInfo::UInt64) => true,
        (FieldValue::Float32(_), FieldTypeInfo::Float32) => true,
        (FieldValue::Float64(_), FieldTypeInfo::Float64) => true,
        _ => false,
    }
}

/// Write a scalar of its type.
pub fn put_scalar(out: &mut Vec<u8>, v: &FieldValue, t: &FieldTypeInfo, x2: bool)
    requires
        old(out)@.len() >= 4,
        scalar_matches(v@, *t),
    ensures
        final(out)@ == old(out)@ + scalar_write(v@, *t, body_pos(old(out)@), x2),
{
    let wide: usize = if x2 { 4 } else { 8 };
    match v {
        FieldValue::Bool(b) => {
            let bytes: Vec<u8> = vec![if *b { 1u8 } else { 0u8 }];
            put_aligned(out, 1, bytes.as_slice());
        },
        FieldValue::Int8(x) => {
            let bytes: Vec<u8> = vec![*x as u8];
            put_aligned(out, 1, bytes.as_slice());
        },
        FieldValue::UInt8(x) => {
            let bytes: Vec<u8> = vec![*x];
            put_aligned(out, 1, bytes.as_slice());
        },
        FieldValue::Int16(x) => {
            let bytes = vstd::bytes::u16_to_le_bytes(*x as u16);
            put_aligned(out, 2, bytes.as_slice());
        },
        FieldValue::UInt16(x) => {
            let bytes = vstd::bytes::u16_to_le_bytes(*x);
            put_aligned(out, 2, bytes.as_slice());
        },
        FieldValue::Int32(x) => {
            let bytes = vstd::bytes::u32_to_le_bytes(*x as u32);
            put_aligned(out, 4, bytes.as_slice());
        },
        FieldValue::UInt32(x) => {
            let bytes = vstd::bytes::u32_to_le_bytes(*x);
            put_aligned(out, 4, bytes.as_slice());
        },
        FieldValue::Int64(x) => {
            let bytes = vstd::bytes::u64_to_le_bytes(*x as u64);
            put_aligned(out, wide, bytes.as_slice());
        },
        FieldValue::UInt64(x) => {
            let bytes = vstd::bytes::u64_to_le_bytes(*x);
            put_aligned(out, wide, bytes.as_slice());
        },
        FieldValue::Float32(x) => {
            let bytes = vstd::bytes::u32_to_le_bytes(*x);
            put_aligned(out, 4, bytes.as_slice());
        },
        FieldValue::Float64(x) => {
            let bytes = vstd::bytes::u64_to_le_bytes(*x);
            put_aligned(out, wide, bytes.as_slice());
        },
        _ => {},
    }
}

/// Once writing the first `n` items fails, writing more of them fails the same way.
pub proof fn lemma_ser_items_err(
    items: Seq<SpecValue>,
    t: FieldTypeInfo,
    pos: nat,
    x2: bool,
    n: nat,
    m: nat,
)
    requires
        n <= m <= items.len(),
        ser_items(items, t, pos, x2, n) is Err,
    ensures
        ser_items(items, t, pos, x2, m) == ser_items(items, t, pos, x2, n),
    decreases m - n,
{
    if n < m {
        lemma_ser_items_err(items, t, pos, x2, n, (m - 1) as nat);
    }
}

/// Once writing the first `n` fields fails, writing more of them fails the same way.
pub proof fn lemma_ser_fields_err(
    vals: Seq<Option<SpecValue>>,
    fields: Seq<FieldDescriptor>,
    pos: nat,
    x2: bool,
    n: nat,
    m: nat,
)
    requires
        n <= m <= fields.len(),
        ser_fields(vals, fields, pos, x2, n) is Err,
    ensures
        ser_fields(vals, fields, pos, x2, m) == ser_fields(vals, fields, pos, x2, n),
    decreases m - n,
{
    if n < m {
        lemma_ser_fields_err(vals, fields, pos, x2, n, (m - 1) as nat);
    }
}

/// Write a value of type `t` after the bytes already in `out`.
#[verifier::loop_isolation(false)]
pub fn serialize_value(out: &mut Vec<u8>, v: &FieldValue, t: &FieldTypeInfo, x2: bool) -> (r: Result<
    (),
    CodecError,
>)
    requires
        old(out)@.len() >= 4,
    ensures
        final(out)@.len() >= 4,
        write_outcome(ser_value(v@, *t, body_pos(old(out)@), x2), r, old(out)@, final(out)@),
        r is Err ==> grows(old(out)@, final(out)@),
        r is Err && !writes_before_failing(*v, *t) ==> final(out)@ == old(out)@,
    decreases v,
{
    let ghost start = out@;
    let ghost pos0 = body_pos(start);
    proof {
        lemma_grows_refl(start);
    }
    if is_scalar(t) {
        if scalar_fits(v, t) {
            put_scalar(out, v, t, x2);
            return Ok(());
        } else {
            return Err(CodecError::TypeMismatch);
        }
    }
    match t {
        FieldTypeInfo::String { .. } => match v {
            FieldValue::String(s) => {
                if s.as_str().as_bytes().len() >= 0xffff_ffff {
                    return Err(CodecError::TooLarge);
                }
                put_string(out, s.as_str());
                Ok(())
            },
            _ => Err(CodecError::TypeMismatch),
        },
        FieldTypeInfo::Bytes { .. } => match v {
            FieldValue::Bytes(b) => {
                if b.len() > 0xffff_ffff {
                    return Err(CodecError::TooLarge);
                }
                put_octets(out, b.as_slice());
                Ok(())
            },
            _ => Err(CodecError::TypeMismatch),
        },
        FieldTypeInfo::Sequence { element_type, .. } => match v {
            FieldValue::Sequence(items) => {
                let ghost vs = seq_views(items@);
                assert(v@ == SpecValue::Sequence(vs));
                if is_bulk(element_type) {
                    serialize_bulk(out, items, element_type, x2)
                } else {
                    if items.len() > 0xffff_ffff {
                        return Err(CodecError::TooLarge);
                    }
                    put_u32(out, items.len() as u32);
                    let ghost mid = out@;
                    let r = serialize_items(out, items, element_type, x2);
                    proof {
                        let hdr = crate::cdr::aligned(pos0, 4, crate::cdr::u32_le(items.len() as u32));
                        assert(mid == start + hdr);
                        if r is Ok {
                            let b = ser_items(vs, **element_type, body_pos(mid), x2, vs.len())->Ok_0;
                            assert(out@ == start + (hdr + b));
                        } else {
                            lemma_grows_append(start, hdr);
                            lemma_grows_trans(start, mid, out@);
                        }
                    }
                    r
                }
            },
            FieldValue::Bytes(b) => {
                match **element_type {
                    FieldTypeInfo::UInt8 => {
                        if b.len() > 0xffff_ffff {
                            return Err(CodecError::TooLarge);
                        }
                        put_octets(out, b.as_slice());
                        Ok(())
                    },
                    _ => Err(CodecError::TypeMismatch),
                }
            },
            _ => Err(CodecError::TypeMismatch),
        },
        FieldTypeInfo::Array { element_type, .. } => match v {
            FieldValue::Array(items) => {
                assert(v@ == SpecValue::Array(seq_views(items@)));
                serialize_items(out, items, element_type, x2)
            },
            _ => Err(CodecError::TypeMismatch),
        },
        FieldTypeInfo::Struct { descriptor } => match v {
            FieldValue::Struct(d) => {
                assert(v@ == SpecValue::Struct(opt_views(d.values@)));
                serialize_fields(out, &d.values, &descriptor.fields, x2)
            },
            _ => Err(CodecError::TypeMismatch),
        },
        _ => Err(CodecError::TypeMismatch),
    }
}

/// Write every item with element type `t`, one after the other.
#[verifier::loop_isolation(false)]
pub fn serialize_items(out: &mut Vec<u8>, items: &Vec<FieldValue>, t: &FieldTypeInfo, x2: bool) -> (r: Result<
    (),
    CodecError,
>)
    requires
        old(out)@.len() >= 4,
    ensures
        final(out)@.len() >= 4,
        write_outcome(
            ser_items(seq_views(items@), *t, body_pos(old(out)@), x2, items@.len()),
            r,
            old(out)@,
            final(out)@,
        ),
        r is Err ==> grows(old(out)@, final(out)@),
    decreases *items,
{
    let ghost start = out@;
    let ghost pos0 = body_pos(start);
    let ghost vs = seq_views(items@);
    let mut i: usize = 0;
    while i < items.len()
        invariant
            i <= items@.len(),
            vs == seq_views(items@),
            start.len() >= 4,
            ser_items(vs, *t, pos0, x2, i as nat) matches Ok(b) && out@ == start + b,
        decreases items@.len() - i,
    {
        let ghost prefix = ser_items(vs, *t, pos0, x2, i as nat)->Ok_0;
        proof {
            vstd::std_specs::vec::axiom_vec_index_decreases(*items, i as int);
            assert(vs[i as int] == value_view(items@[i as int]));
        }
        let ghost before = out@;
        let res = serialize_value(out, &items[i], t, x2);
        match res {
            Ok(()) => {},
            Err(e) => {
                proof {
                    lemma_ser_items_err(vs, *t, pos0, x2, (i + 1) as nat, vs.len());
                    lemma_grows_append(start, prefix);
                    lemma_grows_trans(start, before, out@);
                }
                return Err(e);
            },
        }
        proof {
            let b = ser_value(vs[i as int], *t, pos0 + prefix.len(), x2)->Ok_0;
            assert(out@ == start + (prefix + b));
        }
        i += 1;
    }
    Ok(())
}

/// Write the fields of a struct in order; a field without a value is an error.
#[verifier::loop_isolation(false)]
pub fn serialize_fields(
    out: &mut Vec<u8>,
    values: &Vec<Option<FieldValue>>,
    fields: &Vec<FieldDescriptor>,
    x2: bool,
) -> (r: Result<(), CodecError>)
    requires
        old(out)@.len() >= 4,
    ensures
        final(out)@.len() >= 4,
        write_outcome(
            ser_fields(opt_views(values@), fields@, body_pos(old(out)@), x2, fields@.len()),
            r,
            old(out)@,
            final(out)@,
        ),
        r is Err ==> grows(old(out)@, final(out)@),
    decreases *values,
{
    let ghost start = out@;
    let ghost pos0 = body_pos(start);
    let ghost vals = opt_views(values@);
    let mut i: usize = 0;
    while i < fields.len()
        invariant
            i <= fields@.len(),
            vals == opt_views(values@),
            start.len() >= 4,
            ser_fields(vals, fields@, pos0, x2, i as nat) matches Ok(b) && out@ == start + b,
        decreases fields@.len() - i,
    {
        let ghost prefix = ser_fields(vals, fields@, pos0, x2, i as nat)->Ok_0;
        let ghost before = out@;
        proof {
            lemma_grows_append(start, prefix);
        }
        if i < values.len() {
            match &values[i] {
                Some(x) => {
                    proof {
                        vstd::std_specs::vec::axiom_vec_index_decreases(*values, i as int);
                        assert(vals[i as int] == Some(value_view(*x)));
                    }
                    let res = serialize_value(out, x, &fields[i].field_type, x2);
                    match res {
                        Ok(()) => {},
                        Err(e) => {
                            proof {
                                lemma_ser_fields_err(vals, fields@, pos0, x2, (i + 1) as nat, fields@.len());
                                lemma_grows_trans(start, before, out@);
                            }
                            return Err(e);
                        },
                    }
                    proof {
                        let b = ser_value(value_view(*x), fields@[i as int].field_type, pos0 + prefix.len(), x2)->Ok_0;
                        assert(out@ == start + (prefix + b));
                    }
                },
                None => {
                    proof {
                        lemma_ser_fields_err(vals, fields@, pos0, x2, (i + 1) as nat, fields@.len());
                    }
                    return Err(CodecError::MissingField(fields[i].name.clone()));
                },
            }
        } else {
            proof {
                lemma_ser_fields_err(vals, fields@, pos0, x2, (i + 1) as nat, fields@.len());
            }
            return Err(CodecError::MissingField(fields[i].name.clone()));
        }
        i += 1;
    }
    Ok(())
}

/// Write a bulk sequence: the count of items that have the element type,
/// then those items.
#[verifier::loop_isolation(false)]
pub fn serialize_bulk(out: &mut Vec<u8>, items: &Vec<FieldValue>, t: &FieldTypeInfo, x2: bool) -> (r: Result<
    (),
    CodecError,
>)
    requires
        old(out)@.len() >= 4,
        is_bulk_type(*t),
    ensures
        final(out)@.len() >= 4,
        write_outcome(bulk_write(seq_views(items@), *t, body_pos(old(out)@), x2), r, old(out)@, final(out)@),
        r is Err ==> final(out)@ == old(out)@,
{
    let ghost start = out@;
    let ghost vs = seq_views(items@);
    let mut count: usize = 0;
    let mut i: usize = 0;
    while i < items.len()
        invariant
            i <= items@.len(),
            count == keep_matching(vs.take(i as int), *t).len(),
            count <= i,
        decreases items@.len() - i,
    {
        proof {
            assert(vs.take(i + 1).drop_last() =~= vs.take(i as int));
            assert(vs[i as int] == value_view(items@[i as int]));
        }
        if scalar_fits(&items[i], t) {
            count += 1;
        }
        i += 1;
    }
    assert(vs.take(i as int) =~= vs);
    if count > 0xffff_ffff {
        return Err(CodecError::TooLarge);
    }
    put_u32(out, count as u32);
    let ghost mid = out@;
    let ghost kept = keep_matching(vs, *t);
    let mut j: usize = 0;
    while j < items.len()
        invariant
            j <= items@.len(),
            mid.len() >= 4,
            out@ == mid + scalars_write(keep_matching(vs.take(j as int), *t), *t, body_pos(mid), x2),
        decreases items@.len() - j,
    {
        let ghost k = keep_matching(vs.take(j as int), *t);
        proof {
            assert(vs.take(j + 1).drop_last() =~= vs.take(j as int));
            assert(vs[j as int] == value_view(items@[j as int]));
        }
        if scalar_fits(&items[j], t) {
            put_scalar(out, &items[j], t, x2);
            proof {
                let k2 = k.push(vs[j as int]);
                assert(k2.drop_last() =~= k);
                assert(keep_matching(vs.take(j + 1), *t) == k2);
            }
        }
        j += 1;
    }
    assert(vs.take(j as int) =~= vs);
    proof {
        let hdr = crate::cdr::aligned(body_pos(start), 4, crate::cdr::u32_le(count as u32));
        assert(mid == start + hdr);
        assert(body_pos(mid) == body_pos(start) + hdr.len());
        assert(kept.len() == count);
        let s2 = scalars_write(kept, *t, body_pos(mid), x2);
        assert(out@ == start + (hdr + s2));
        assert(bulk_write(vs, *t, body_pos(start), x2) == Ok::<Seq<u8>, SpecCodecError>(hdr + s2));
    }
    Ok(())
}

/// Read a scalar of type `t` at body position `pos`.
pub fn read_scalar(data: &[u8], pos: usize, t: &FieldTypeInfo, le: bool, x2: bool) -> (r: Option<(FieldValue, usize)>)
    requires
        data@.len() >= 4,
        is_scalar_type(*t),
    ensures
        match scalar_read(*t, data@.skip(4), pos as nat, le, x2) {
            Some((v, p)) => r matches Some((fv, q)) && fv@ == v && q == p,
            None => r is None,
        },
{
    let wide: usize = if x2 { 4 } else { 8 };
    match t {
        FieldTypeInfo::Bool => match take_at(data, pos, 1, 1) {
            Some((b, p)) => Some((FieldValue::Bool(b[0] != 0), p)),
            None => None,
        },
        FieldTypeInfo::Int8 => match take_at(data, pos, 1, 1) {
            Some((b, p)) => Some((FieldValue::Int8(b[0] as i8), p)),
            None => None,
        },
        FieldTypeInfo::UInt8 => match take_at(data, pos, 1, 1) {
            Some((b, p)) => Some((FieldValue::UInt8(b[0]), p)),
            None => None,
        },
        FieldTypeInfo::Int16 => match take_u16(data, pos, le) {
            Some((x, p)) => Some((FieldValue::Int16(x as i16), p)),
            None => None,
        },
        FieldTypeInfo::UInt16 => match take_u16(data, pos, le) {
            Some((x, p)) => Some((FieldValue::UInt16(x), p)),
            None => None,
        },
        FieldTypeInfo::Int32 => match take_u32(data, pos, le) {
            Some((x, p)) => Some((FieldValue::Int32(x as i32), p)),
            None => None,
        },
        FieldTypeInfo::UInt32 => match take_u32(data, pos, le) {
            Some((x, p)) => Some((FieldValue::UInt32(x), p)),
            None => None,
        },
        FieldTypeInfo::Int64 => match take_u64(data, pos, wide, le) {
            Some((x, p)) => Some((FieldValue::Int64(x as i64), p)),
            None => None,
        },
        FieldTypeInfo::UInt64 => match take_u64(data, pos, wide, le) {
            Some((x, p)) => Some((FieldValue::UInt64(x), p)),
            None => None,
        },
        FieldTypeInfo::Float32 => match take_u32(data, pos, le) {
            Some((x, p)) => Some((FieldValue::Float32(x), p)),
            None => None,
        },
        _ => match take_u64(data, pos, wide, le) {
            Some((x, p)) => Some((FieldValue::Float64(x), p)),
            None => None,
        },
    }
}

/// `r` is the executable outcome of reading with specified outcome `s`.
pub open spec fn read_outcome(s: Option<(SpecValue, nat)>, r: Option<(FieldValue, usize)>) -> bool {
    match s {
        Some((v, p)) => r matches Some((fv, q)) && fv@ == v && q == p,
        None => r is None,
    }
}

/// Read a value of type `t` at body position `pos`.
pub fn deserialize_value(data: &[u8], pos: usize, t: &FieldTypeInfo, le: bool, x2: bool) -> (r: Option<
    (FieldValue, usize),
>)
    requires
        data@.len() >= 4,
    ensures
        read_outcome(de_value(*t, data@.skip(4), pos as nat, le, x2), r),
    decreases t, 0nat,
{
    if is_scalar(t) {
        return read_scalar(data, pos, t, le, x2);
    }
    match t {
        FieldTypeInfo::String { .. } => match take_string(data, pos, le) {
            Some((s, p)) => Some((FieldValue::String(s), p)),
            None => None,
        },
        FieldTypeInfo::Bytes { .. } => match take_octets(data, pos, le) {
            Some((b, p)) => Some((FieldValue::Bytes(b), p)),
            None => None,
        },
        FieldTypeInfo::Sequence { element_type, .. } => {
            match **element_type {
                FieldTypeInfo::UInt8 => {
                    return match take_octets(data, pos, le) {
                        Some((b, p)) => Some((FieldValue::Bytes(b), p)),
                        None => None,
                    };
                },
                _ => {},
            }
            match take_u32(data, pos, le) {
                Some((n, p1)) => match deserialize_items(data, p1, element_type, n as usize, le, x2) {
                    Some((items, p2)) => Some((FieldValue::Sequence(items), p2)),
                    None => None,
                },
                None => None,
            }
        },
        FieldTypeInfo::Array { element_type, length } => match deserialize_items(
            data,
            pos,
            element_type,
            *length as usize,
            le,
            x2,
        ) {
            Some((items, p)) => Some((FieldValue::Array(items), p)),
            None => None,
        },
        FieldTypeInfo::Struct { descriptor } => match deserialize_fields(data, pos, &descriptor.fields, le, x2) {
            Some((values, p)) => {
                let d = Box::new(Int2DdsData { values });
                Some((FieldValue::Struct(d), p))
            },
            None => None,
        },
        _ => None,
    }
}

/// Read `n` items of element type `t` from body position `pos`.
pub fn deserialize_items(data: &[u8], pos: usize, t: &FieldTypeInfo, n: usize, le: bool, x2: bool) -> (r: Option<
    (Vec<FieldValue>, usize),
>)
    requires
        data@.len() >= 4,
    ensures
        match de_items(*t, n as nat, data@.skip(4), pos as nat, le, x2) {
            Some((vs, p)) => r matches Some((items, q)) && seq_views(items@) == vs && q == p,
            None => r is None,
        },
    decreases t, 1nat,
{
    let ghost buf = data@.skip(4);
    let mut items: Vec<FieldValue> = Vec::new();
    let mut p = pos;
    let mut i: usize = 0;
    proof {
        lemma_views_empty(items@, Seq::empty());
    }
    while i < n
        invariant
            i <= n,
            data@.len() >= 4,
            buf == data@.skip(4),
            de_items(*t, i as nat, buf, pos as nat, le, x2) == Some((seq_views(items@), p as nat)),
        decreases n - i,
    {
        match deserialize_value(data, p, t, le, x2) {
            Some((v, q)) => {
                proof {
                    lemma_seq_views_push(items@, v);
                }
                items.push(v);
                p = q;
            },
            None => {
                proof {
                    lemma_de_items_none(*t, buf, pos as nat, le, x2, (i + 1) as nat, n as nat);
                }
                return None;
            },
        }
        i += 1;
    }
    Some((items, p))
}

/// Read the fields of a struct in order from body position `pos`.
pub fn deserialize_fields(data: &[u8], pos: usize, fields: &Vec<FieldDescriptor>, le: bool, x2: bool) -> (r:
    Option<(Vec<Option<FieldValue>>, usize)>)
    requires
        data@.len() >= 4,
    ensures
        match de_fields(fields@, fields@.len(), data@.skip(4), pos as nat, le, x2) {
            Some((vs, p)) => r matches Some((values, q)) && opt_views(values@) == vs && q == p,
            None => r is None,
        },
    decreases *fields, 1nat,
{
    let ghost buf = data@.skip(4);
    let mut values: Vec<Option<FieldValue>> = Vec::new();
    let mut p = pos;
    let mut i: usize = 0;
    proof {
        lemma_views_empty(Seq::empty(), values@);
    }
    while i < fields.len()
        invariant
            i <= fields@.len(),
            data@.len() >= 4,
            buf == data@.skip(4),
            de_fields(fields@, i as nat, buf, pos as nat, le, x2) == Some((opt_views(values@), p as nat)),
        decreases fields@.len() - i,
    {
        proof {
            vstd::std_specs::vec::axiom_vec_index_decreases(*fields, i as int);
        }
        match deserialize_value(data, p, &fields[i].field_type, le, x2) {
            Some((v, q)) => {
                proof {
                    lemma_opt_views_push(values@, Some(v));
                }
                values.push(Some(v));
                p = q;
            },
            None => {
                proof {
                    lemma_de_fields_none(fields@, buf, pos as nat, le, x2, (i + 1) as nat, fields@.len());
                }
                return None;
            },
        }
        i += 1;
    }
    Some((values, p))
}

/// Once reading the first `n` items fails, reading more fails too.
pub proof fn lemma_de_items_none(t: FieldTypeInfo, buf: Seq<u8>, pos: nat, le: bool, x2: bool, n: nat, m: nat)
    requires
        n <= m,
        de_items(t, n, buf, pos, le, x2) is None,
    ensures
        de_items(t, m, buf, pos, le, x2) is None,
    decreases m - n,
{
    if n < m {
        lemma_de_items_none(t, buf, pos, le, x2, n, (m - 1) as nat);
    }
}

/// Once reading the first `n` fields fails, reading more fails too.
pub proof fn lemma_de_fields_none(
    fields: Seq<FieldDescriptor>,
    buf: Seq<u8>,
    pos: nat,
    le: bool,
    x2: bool,
    n: nat,
    m: nat,
)
    requires
        n <= m <= fields.len(),
        de_fields(fields, n, buf, pos, le, x2) is None,
    ensures
        de_fields(fields, m, buf, pos, le, x2) is None,
    decreases m - n,
{
    if n < m {
        lemma_de_fields_none(fields, buf, pos, le, x2, n, (m - 1) as nat);
    }
}

} // verus!
