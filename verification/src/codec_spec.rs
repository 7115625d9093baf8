//! The CDR encoding of runtime-defined samples, stated as functions from
//! values and types to bytes (writing) and from bytes and types to values
//! (reading).
//!
//! Scalars are little-endian and aligned to their size, except that 8-byte
//! scalars align to 4 under XCDR2. Strings carry a `u32` length that counts a
//! terminating NUL; sequences and octet buffers carry a `u32` element count;
//! arrays carry none; nested structs write their fields in order.

use vstd::prelude::*;
use vstd::bytes::{spec_u16_to_le_bytes, spec_u32_to_le_bytes, spec_u64_to_le_bytes};
use vstd::utf8::encode_utf8;

use crate::cdr::{
    aligned, octets_read, octets_write, read_at, string_read, string_write, u16_from, u32_from, u32_le, u64_from,
};
use crate::data::SpecValue;
use crate::type_descriptor::{FieldDescriptor, FieldTypeInfo};

verus! {

/// Why a value cannot be written.
pub enum SpecCodecError {
    /// A required field has no value (its name).
    Missing(Seq<char>),
    /// A value does not have the shape of its type.
    Mismatch,
    /// A length does not fit the `u32` length field.
    TooLarge,
}

/// Fixed-size scalar types.
pub open spec fn is_scalar_type(t: FieldTypeInfo) -> bool {
    match t {
        FieldTypeInfo::Bool | FieldTypeInfo::Int8 | FieldTypeInfo::UInt8 | FieldTypeInfo::Int16
        | FieldTypeInfo::UInt16 | FieldTypeInfo::Int32 | FieldTypeInfo::UInt32
        | FieldTypeInfo::Int64 | FieldTypeInfo::UInt64 | FieldTypeInfo::Float32
        | FieldTypeInfo::Float64 => true,
        _ => false,
    }
}

/// Scalar element types whose sequences are written in bulk: only the
/// elements of the element type are kept, the rest are dropped.
pub open spec fn is_bulk_type(t: FieldTypeInfo) -> bool {
    is_scalar_type(t) && !(t is UInt8)
}

/// The value is a scalar of the scalar type `t`.
pub open spec fn scalar_matches(v: SpecValue, t: FieldTypeInfo) -> bool {
    match (v, t) {
        (SpecValue::Bool(_), FieldTypeInfo::Bool) => true,
        (SpecValue::Int8(_), FieldTypeInfo::Int8) => true,
        (SpecValue::UInt8(_), FieldTypeInfo::UInt8) => true,
        (SpecValue::Int16(_), FieldTypeInfo::Int16) => true,
        (SpecValue::UInt16(_), FieldTypeInfo::UInt16) => true,
        (SpecValue::Int32(_), FieldTypeInfo::Int32) => true,
        (SpecValue::UInt32(_), FieldTypeInfo::UInt32) => true,
        (SpecValue::Int64(_), FieldTypeInfo::Int64) => true,
        (SpecValue::UInt64(_), FieldTypeInfo::UInt64) => true,
        (SpecValue::Float32(_), FieldTypeInfo::Float32) => true,
        (SpecValue::Float64(_), FieldTypeInfo::Float64) => true,
        _ => false,
    }
}

/// Alignment of a scalar type.
pub open spec fn scalar_align(t: FieldTypeInfo, x2: bool) -> nat {
    match t {
        FieldTypeInfo::Int16 | FieldTypeInfo::UInt16 => 2,
        FieldTypeInfo::Int32 | FieldTypeInfo::UInt32 | FieldTypeInfo::Float32 => 4,
        FieldTypeInfo::Int64 | FieldTypeInfo::UInt64 | FieldTypeInfo::Float64 => if x2 {
            4
        } else {
            8
        },
        _ => 1,
    }
}

/// Size of a scalar type.
pub open spec fn scalar_size(t: FieldTypeInfo) -> nat {
    match t {
        FieldTypeInfo::Int16 | FieldTypeInfo::UInt16 => 2,
        FieldTypeInfo::Int32 | FieldTypeInfo::UInt32 | FieldTypeInfo::Float32 => 4,
        FieldTypeInfo::Int64 | FieldTypeInfo::UInt64 | FieldTypeInfo::Float64 => 8,
        _ => 1,
    }
}

/// Little-endian bytes of a scalar value (booleans as 0 or 1).
pub open spec fn scalar_le(v: SpecValue) -> Seq<u8> {
    match v {
        SpecValue::Bool(b) => seq![if b { 1u8 } else { 0u8 }],
        SpecValue::Int8(x) => seq![x as u8],
        SpecValue::UInt8(x) => seq![x],
        SpecValue::Int16(x) => spec_u16_to_le_bytes(x as u16),
        SpecValue::UInt16(x) => spec_u16_to_le_bytes(x),
        SpecValue::Int32(x) => spec_u32_to_le_bytes(x as u32),
        SpecValue::UInt32(x) => spec_u32_to_le_bytes(x),
        SpecValue::Int64(x) => spec_u64_to_le_bytes(x as u64),
        SpecValue::UInt64(x) => spec_u64_to_le_bytes(x),
        SpecValue::Float32(x) => spec_u32_to_le_bytes(x),
        SpecValue::Float64(x) => spec_u64_to_le_bytes(x),
        _ => Seq::empty(),
    }
}

/// A scalar written at `pos`.
pub open spec fn scalar_write(v: SpecValue, t: FieldTypeInfo, pos: nat, x2: bool) -> Seq<u8> {
    aligned(pos, scalar_align(t, x2), scalar_le(v))
}

/// The scalar of type `t` encoded by `bytes` in the given byte order (a
/// boolean is true when its byte is not zero).
pub open spec fn scalar_from(t: FieldTypeInfo, bytes: Seq<u8>, le: bool) -> SpecValue {
    match t {
        FieldTypeInfo::Bool => SpecValue::Bool(bytes[0] != 0),
        FieldTypeInfo::Int8 => SpecValue::Int8(bytes[0] as i8),
        FieldTypeInfo::UInt8 => SpecValue::UInt8(bytes[0]),
        FieldTypeInfo::Int16 => SpecValue::Int16(u16_from(bytes, le) as i16),
        FieldTypeInfo::UInt16 => SpecValue::UInt16(u16_from(bytes, le)),
        FieldTypeInfo::Int32 => SpecValue::Int32(u32_from(bytes, le) as i32),
        FieldTypeInfo::UInt32 => SpecValue::UInt32(u32_from(bytes, le)),
        FieldTypeInfo::Int64 => SpecValue::Int64(u64_from(bytes, le) as i64),
        FieldTypeInfo::UInt64 => SpecValue::UInt64(u64_from(bytes, le)),
        FieldTypeInfo::Float32 => SpecValue::Float32(u32_from(bytes, le)),
        _ => SpecValue::Float64(u64_from(bytes, le)),
    }
}

/// Read a scalar of type `t` at `pos`.
pub open spec fn scalar_read(t: FieldTypeInfo, buf: Seq<u8>, pos: nat, le: bool, x2: bool) -> Option<
    (SpecValue, nat),
> {
    match read_at(buf, pos, scalar_align(t, x2), scalar_size(t)) {
        Some((b, p)) => Some((scalar_from(t, b, le), p)),
        None => None,
    }
}

/// The items of a bulk sequence that have the element type, in order.
pub open spec fn keep_matching(items: Seq<SpecValue>, t: FieldTypeInfo) -> Seq<SpecValue>
    decreases items.len(),
{
    if items.len() == 0 {
        Seq::empty()
    } else {
        let rest = keep_matching(items.drop_last(), t);
        if scalar_matches(items.last(), t) {
            rest.push(items.last())
        } else {
            rest
        }
    }
}

/// Scalars written one after the other from `pos`.
pub open spec fn scalars_write(items: Seq<SpecValue>, t: FieldTypeInfo, pos: nat, x2: bool) -> Seq<u8>
    decreases items.len(),
{
    if items.len() == 0 {
        Seq::empty()
    } else {
        let prefix = scalars_write(items.drop_last(), t, pos, x2);
        prefix + scalar_write(items.last(), t, pos + prefix.len(), x2)
    }
}

/// A bulk sequence: the count of kept items, then the kept items.
pub open spec fn bulk_write(items: Seq<SpecValue>, t: FieldTypeInfo, pos: nat, x2: bool) -> Result<
    Seq<u8>,
    SpecCodecError,
> {
    let kept = keep_matching(items, t);
    if kept.len() > u32::MAX {
        Err(SpecCodecError::TooLarge)
    } else {
        let hdr = aligned(pos, 4, u32_le(kept.len() as u32));
        Ok(hdr + scalars_write(kept, t, pos + hdr.len(), x2))
    }
}

/// A value of type `t` written at `pos`.
pub open spec fn ser_value(v: SpecValue, t: FieldTypeInfo, pos: nat, x2: bool) -> Result<
    Seq<u8>,
    SpecCodecError,
>
    decreases v, 1nat,
{
    if is_scalar_type(t) {
        if scalar_matches(v, t) {
            Ok(scalar_write(v, t, pos, x2))
        } else {
            Err(SpecCodecError::Mismatch)
        }
    } else {
        match t {
            FieldTypeInfo::String { .. } => match v {
                SpecValue::Str(c) => if encode_utf8(c).len() >= u32::MAX {
                    Err(SpecCodecError::TooLarge)
                } else {
                    Ok(string_write(c, pos))
                },
                _ => Err(SpecCodecError::Mismatch),
            },
            FieldTypeInfo::Bytes { .. } => match v {
                SpecValue::Bytes(b) => if b.len() > u32::MAX {
                    Err(SpecCodecError::TooLarge)
                } else {
                    Ok(octets_write(b, pos))
                },
                _ => Err(SpecCodecError::Mismatch),
            },
            FieldTypeInfo::Sequence { element_type, .. } => match v {
                SpecValue::Sequence(items) => if is_bulk_type(*element_type) {
                    bulk_write(items, *element_type, pos, x2)
                } else if items.len() > u32::MAX {
                    Err(SpecCodecError::TooLarge)
                } else {
                    let hdr = aligned(pos, 4, u32_le(items.len() as u32));
                    match ser_items(items, *element_type, pos + hdr.len(), x2, items.len()) {
                        Ok(b) => Ok(hdr + b),
                        Err(e) => Err(e),
                    }
                },
                SpecValue::Bytes(b) => if *element_type is UInt8 {
                    if b.len() > u32::MAX {
                        Err(SpecCodecError::TooLarge)
                    } else {
                        Ok(octets_write(b, pos))
                    }
                } else {
                    Err(SpecCodecError::Mismatch)
                },
                _ => Err(SpecCodecError::Mismatch),
            },
            FieldTypeInfo::Array { element_type, .. } => match v {
                SpecValue::Array(items) => ser_items(items, *element_type, pos, x2, items.len()),
                _ => Err(SpecCodecError::Mismatch),
            },
            FieldTypeInfo::Struct { descriptor } => match v {
                SpecValue::Struct(vals) => ser_fields(
                    vals,
                    descriptor.fields@,
                    pos,
                    x2,
                    descriptor.fields@.len(),
                ),
                _ => Err(SpecCodecError::Mismatch),
            },
            _ => Err(SpecCodecError::Mismatch),
        }
    }
}

/// The first `n` items, each of element type `t`, written from `pos`.
pub open spec fn ser_items(items: Seq<SpecValue>, t: FieldTypeInfo, pos: nat, x2: bool, n: nat) -> Result<
    Seq<u8>,
    SpecCodecError,
>
    decreases items, n,
{
    if n == 0 || n > items.len() {
        Ok(Seq::empty())
    } else {
        match ser_items(items, t, pos, x2, (n - 1) as nat) {
            Ok(prefix) => match ser_value(items[n - 1], t, pos + prefix.len(), x2) {
                Ok(b) => Ok(prefix + b),
                Err(e) => Err(e),
            },
            Err(e) => Err(e),
        }
    }
}

/// The first `n` fields of a struct written from `pos`; a field without a
/// value is an error naming it.
pub open spec fn ser_fields(
    vals: Seq<Option<SpecValue>>,
    fields: Seq<FieldDescriptor>,
    pos: nat,
    x2: bool,
    n: nat,
) -> Result<Seq<u8>, SpecCodecError>
    decreases vals, n,
{
    if n == 0 || n > fields.len() {
        Ok(Seq::empty())
    } else {
        match ser_fields(vals, fields, pos, x2, (n - 1) as nat) {
            Ok(prefix) => if n - 1 < vals.len() && vals[n - 1] is Some {
                match ser_value(vals[n - 1]->0, fields[n - 1].field_type, pos + prefix.len(), x2) {
                    Ok(b) => Ok(prefix + b),
                    Err(e) => Err(e),
                }
            } else {
                Err(SpecCodecError::Missing(fields[n - 1].name@))
            },
            Err(e) => Err(e),
        }
    }
}

/// Read a value of type `t` at `pos`: the value and the position after it.
/// A sequence of octets reads back as an octet buffer.
pub open spec fn de_value(t: FieldTypeInfo, buf: Seq<u8>, pos: nat, le: bool, x2: bool) -> Option<
    (SpecValue, nat),
>
    decreases t, 0nat,
{
    if is_scalar_type(t) {
        scalar_read(t, buf, pos, le, x2)
    } else {
        match t {
            FieldTypeInfo::String { .. } => match string_read(buf, pos, le) {
                Some((c, p)) => Some((SpecValue::Str(c), p)),
                None => None,
            },
            FieldTypeInfo::Bytes { .. } => match octets_read(buf, pos, le) {
                Some((b, p)) => Some((SpecValue::Bytes(b), p)),
                None => None,
            },
            FieldTypeInfo::Sequence { element_type, .. } => if *element_type is UInt8 {
                match octets_read(buf, pos, le) {
                    Some((b, p)) => Some((SpecValue::Bytes(b), p)),
                    None => None,
                }
            } else {
                match read_at(buf, pos, 4, 4) {
                    Some((lb, p1)) => match de_items(
                        *element_type,
                        u32_from(lb, le) as nat,
                        buf,
                        p1,
                        le,
                        x2,
                    ) {
                        Some((items, p2)) => Some((SpecValue::Sequence(items), p2)),
                        None => None,
                    },
                    None => None,
                }
            },
            FieldTypeInfo::Array { element_type, length } => match de_items(
                *element_type,
                length as nat,
                buf,
                pos,
                le,
                x2,
            ) {
                Some((items, p)) => Some((SpecValue::Array(items), p)),
                None => None,
            },
            FieldTypeInfo::Struct { descriptor } => match de_fields(
                descriptor.fields@,
                descriptor.fields@.len(),
                buf,
                pos,
                le,
                x2,
            ) {
                Some((vals, p)) => Some((SpecValue::Struct(vals), p)),
                None => None,
            },
            _ => None,
        }
    }
}

/// Read `n` items of element type `t` from `pos`.
pub open spec fn de_items(t: FieldTypeInfo, n: nat, buf: Seq<u8>, pos: nat, le: bool, x2: bool) -> Option<
    (Seq<SpecValue>, nat),
>
    decreases t, 1nat, n,
{
    if n == 0 {
        Some((Seq::empty(), pos))
    } else {
        match de_items(t, (n - 1) as nat, buf, pos, le, x2) {
            Some((prefix, p1)) => match de_value(t, buf, p1, le, x2) {
                Some((v, p2)) => Some((prefix.push(v), p2)),
                None => None,
            },
            None => None,
        }
    }
}

/// Read the first `n` fields of a struct from `pos`; each becomes present.
pub open spec fn de_fields(
    fields: Seq<FieldDescriptor>,
    n: nat,
    buf: Seq<u8>,
    pos: nat,
    le: bool,
    x2: bool,
) -> Option<(Seq<Option<SpecValue>>, nat)>
    decreases fields, 1nat, n,
{
    if n == 0 || n > fields.len() {
        Some((Seq::empty(), pos))
    } else {
        match de_fields(fields, (n - 1) as nat, buf, pos, le, x2) {
            Some((prefix, p1)) => match de_value(fields[n - 1].field_type, buf, p1, le, x2) {
                Some((v, p2)) => Some((prefix.push(Some(v)), p2)),
                None => None,
            },
            None => None,
        }
    }
}

} // verus!
