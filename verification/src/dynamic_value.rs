//! Dynamic value trees: an owning value of any shape a discovered type can
//! hold (scalars, strings, enums, unions, bit sets, structs, sequences,
//! arrays, maps), the kind codes of the C API, and the operations that build
//! and inspect such values.
//!
//! A value that does not have the shape an operation needs is a type
//! mismatch; an index past the end is a missing field.

use vstd::prelude::*;

use vstd::string::StringSliceAdditionalSpecFns;

use crate::dynamic::{resolve_from, resolve_path};
use crate::error::{Int2DdsRet, INT2DDS_RET_DYNAMIC_FIELD_NOT_FOUND, INT2DDS_RET_DYNAMIC_TYPE_MISMATCH};

verus! {

pub const INT2DDS_VALUE_KIND_BOOLEAN: i32 = 0;

pub const INT2DDS_VALUE_KIND_INT8: i32 = 1;

pub const INT2DDS_VALUE_KIND_INT16: i32 = 2;

pub const INT2DDS_VALUE_KIND_INT32: i32 = 3;

pub const INT2DDS_VALUE_KIND_INT64: i32 = 4;

pub const INT2DDS_VALUE_KIND_UINT8: i32 = 5;

pub const INT2DDS_VALUE_KIND_UINT16: i32 = 6;

pub const INT2DDS_VALUE_KIND_UINT32: i32 = 7;

pub const INT2DDS_VALUE_KIND_UINT64: i32 = 8;

pub const INT2DDS_VALUE_KIND_FLOAT32: i32 = 9;

pub const INT2DDS_VALUE_KIND_FLOAT64: i32 = 10;

pub const INT2DDS_VALUE_KIND_CHAR8: i32 = 11;

pub const INT2DDS_VALUE_KIND_BYTE: i32 = 12;

pub const INT2DDS_VALUE_KIND_STRING: i32 = 13;

pub const INT2DDS_VALUE_KIND_WSTRING: i32 = 14;

pub const INT2DDS_VALUE_KIND_ENUM: i32 = 15;

pub const INT2DDS_VALUE_KIND_UNION: i32 = 16;

pub const INT2DDS_VALUE_KIND_BITMASK: i32 = 17;

pub const INT2DDS_VALUE_KIND_BITSET: i32 = 18;

pub const INT2DDS_VALUE_KIND_STRUCT: i32 = 19;

pub const INT2DDS_VALUE_KIND_SEQUENCE: i32 = 20;

pub const INT2DDS_VALUE_KIND_ARRAY: i32 = 21;

pub const INT2DDS_VALUE_KIND_MAP: i32 = 22;

pub const INT2DDS_VALUE_KIND_OPTIONAL: i32 = 23;

pub const INT2DDS_VALUE_KIND_NULL: i32 = 24;

/// A decoded sample of a discovered type: its members by name.
#[derive(Debug)]
pub struct DynamicData {
    pub members: Vec<(String, DynamicValue)>,
}

/// One value of a discovered type. Floating-point values are held as their
/// IEEE-754 bit patterns.
#[derive(Debug)]
pub enum DynamicValue {
    Boolean(bool),
    Int8(i8),
    Int16(i16),
    Int32(i32),
    Int64(i64),
    Uint8(u8),
    Uint16(u16),
    Uint32(u32),
    Uint64(u64),
    /// Bit pattern of an `f32`.
    Float32(u32),
    /// Bit pattern of an `f64`.
    Float64(u64),
    Char8(char),
    Byte(u8),
    String(String),
    WString(String),
    Enum { name: String, value: i32 },
    Union { discriminator: Box<DynamicValue>, value: Box<DynamicValue> },
    Bitmask(u64),
    Bitset(u64),
    Struct(Box<DynamicData>),
    Sequence(Vec<DynamicValue>),
    Array(Vec<DynamicValue>),
    Mapping(Vec<(DynamicValue, DynamicValue)>),
    Optional(Option<Box<DynamicValue>>),
    Null,
}

/// The kind code of a value: its variant's position.
pub open spec fn spec_value_kind(v: DynamicValue) -> i32 {
    match v {
        DynamicValue::Boolean(_) => INT2DDS_VALUE_KIND_BOOLEAN,
        DynamicValue::Int8(_) => INT2DDS_VALUE_KIND_INT8,
        DynamicValue::Int16(_) => INT2DDS_VALUE_KIND_INT16,
        DynamicValue::Int32(_) => INT2DDS_VALUE_KIND_INT32,
        DynamicValue::Int64(_) => INT2DDS_VALUE_KIND_INT64,
        DynamicValue::Uint8(_) => INT2DDS_VALUE_KIND_UINT8,
        DynamicValue::Uint16(_) => INT2DDS_VALUE_KIND_UINT16,
        DynamicValue::Uint32(_) => INT2DDS_VALUE_KIND_UINT32,
        DynamicValue::Uint64(_) => INT2DDS_VALUE_KIND_UINT64,
        DynamicValue::Float32(_) => INT2DDS_VALUE_KIND_FLOAT32,
        DynamicValue::Float64(_) => INT2DDS_VALUE_KIND_FLOAT64,
        DynamicValue::Char8(_) => INT2DDS_VALUE_KIND_CHAR8,
        DynamicValue::Byte(_) => INT2DDS_VALUE_KIND_BYTE,
        DynamicValue::String(_) => INT2DDS_VALUE_KIND_STRING,
        DynamicValue::WString(_) => INT2DDS_VALUE_KIND_WSTRING,
        DynamicValue::Enum { .. } => INT2DDS_VALUE_KIND_ENUM,
        DynamicValue::Union { .. } => INT2DDS_VALUE_KIND_UNION,
        DynamicValue::Bitmask(_) => INT2DDS_VALUE_KIND_BITMASK,
        DynamicValue::Bitset(_) => INT2DDS_VALUE_KIND_BITSET,
        DynamicValue::Struct(_) => INT2DDS_VALUE_KIND_STRUCT,
        DynamicValue::Sequence(_) => INT2DDS_VALUE_KIND_SEQUENCE,
        DynamicValue::Array(_) => INT2DDS_VALUE_KIND_ARRAY,
        DynamicValue::Mapping(_) => INT2DDS_VALUE_KIND_MAP,
        DynamicValue::Optional(_) => INT2DDS_VALUE_KIND_OPTIONAL,
        DynamicValue::Null => INT2DDS_VALUE_KIND_NULL,
    }
}

/// The kind code of a value.
pub fn int2dds_dynamic_value_kind(value: &DynamicValue) -> (k: i32)
    ensures
        k == spec_value_kind(*value),
{
    match value {
        DynamicValue::Boolean(_) => INT2DDS_VALUE_KIND_BOOLEAN,
        DynamicValue::Int8(_) => INT2DDS_VALUE_KIND_INT8,
        DynamicValue::Int16(_) => INT2DDS_VALUE_KIND_INT16,
        DynamicValue::Int32(_) => INT2DDS_VALUE_KIND_INT32,
        DynamicValue::Int64(_) => INT2DDS_VALUE_KIND_INT64,
        DynamicValue::Uint8(_) => INT2DDS_VALUE_KIND_UINT8,
        DynamicValue::Uint16(_) => INT2DDS_VALUE_KIND_UINT16,
        DynamicValue::Uint32(_) => INT2DDS_VALUE_KIND_UINT32,
        DynamicValue::Uint64(_) => INT2DDS_VALUE_KIND_UINT64,
        DynamicValue::Float32(_) => INT2DDS_VALUE_KIND_FLOAT32,
        DynamicValue::Float64(_) => INT2DDS_VALUE_KIND_FLOAT64,
        DynamicValue::Char8(_) => INT2DDS_VALUE_KIND_CHAR8,
        DynamicValue::Byte(_) => INT2DDS_VALUE_KIND_BYTE,
        DynamicValue::String(_) => INT2DDS_VALUE_KIND_STRING,
        DynamicValue::WString(_) => INT2DDS_VALUE_KIND_WSTRING,
        DynamicValue::Enum { .. } => INT2DDS_VALUE_KIND_ENUM,
        DynamicValue::Union { .. } => INT2DDS_VALUE_KIND_UNION,
        DynamicValue::Bitmask(_) => INT2DDS_VALUE_KIND_BITMASK,
        DynamicValue::Bitset(_) => INT2DDS_VALUE_KIND_BITSET,
        DynamicValue::Struct(_) => INT2DDS_VALUE_KIND_STRUCT,
        DynamicValue::Sequence(_) => INT2DDS_VALUE_KIND_SEQUENCE,
        DynamicValue::Array(_) => INT2DDS_VALUE_KIND_ARRAY,
        DynamicValue::Mapping(_) => INT2DDS_VALUE_KIND_MAP,
        DynamicValue::Optional(_) => INT2DDS_VALUE_KIND_OPTIONAL,
        DynamicValue::Null => INT2DDS_VALUE_KIND_NULL,
    }
}

/// Each value reports the kind code of its own variant and no other: an
/// `Int64` value, and only an `Int64` value, reports
/// `INT2DDS_VALUE_KIND_INT64`, and so on for every variant; so values of
/// different variants report different codes.
pub proof fn law_value_kind_names_the_variant(v: DynamicValue)
    ensures
        v is Boolean <==> spec_value_kind(v) == INT2DDS_VALUE_KIND_BOOLEAN,
        v is Int8 <==> spec_value_kind(v) == INT2DDS_VALUE_KIND_INT8,
        v is Int16 <==> spec_value_kind(v) == INT2DDS_VALUE_KIND_INT16,
        v is Int32 <==> spec_value_kind(v) == INT2DDS_VALUE_KIND_INT32,
        v is Int64 <==> spec_value_kind(v) == INT2DDS_VALUE_KIND_INT64,
        v is Uint8 <==> spec_value_kind(v) == INT2DDS_VALUE_KIND_UINT8,
        v is Uint16 <==> spec_value_kind(v) == INT2DDS_VALUE_KIND_UINT16,
        v is Uint32 <==> spec_value_kind(v) == INT2DDS_VALUE_KIND_UINT32,
        v is Uint64 <==> spec_value_kind(v) == INT2DDS_VALUE_KIND_UINT64,
        v is Float32 <==> spec_value_kind(v) == INT2DDS_VALUE_KIND_FLOAT32,
        v is Float64 <==> spec_value_kind(v) == INT2DDS_VALUE_KIND_FLOAT64,
        v is Char8 <==> spec_value_kind(v) == INT2DDS_VALUE_KIND_CHAR8,
        v is Byte <==> spec_value_kind(v) == INT2DDS_VALUE_KIND_BYTE,
        v is String <==> spec_value_kind(v) == INT2DDS_VALUE_KIND_STRING,
        v is WString <==> spec_value_kind(v) == INT2DDS_VALUE_KIND_WSTRING,
        v is Enum <==> spec_value_kind(v) == INT2DDS_VALUE_KIND_ENUM,
        v is Union <==> spec_value_kind(v) == INT2DDS_VALUE_KIND_UNION,
        v is Bitmask <==> spec_value_kind(v) == INT2DDS_VALUE_KIND_BITMASK,
        v is Bitset <==> spec_value_kind(v) == INT2DDS_VALUE_KIND_BITSET,
        v is Struct <==> spec_value_kind(v) == INT2DDS_VALUE_KIND_STRUCT,
        v is Sequence <==> spec_value_kind(v) == INT2DDS_VALUE_KIND_SEQUENCE,
        v is Array <==> spec_value_kind(v) == INT2DDS_VALUE_KIND_ARRAY,
        v is Mapping <==> spec_value_kind(v) == INT2DDS_VALUE_KIND_MAP,
        v is Optional <==> spec_value_kind(v) == INT2DDS_VALUE_KIND_OPTIONAL,
        v is Null <==> spec_value_kind(v) == INT2DDS_VALUE_KIND_NULL,
{
}

/// Append an element to a sequence or array value. Any other value is a type
/// mismatch: it is left as it was and the element is handed back.
pub fn int2dds_dynamic_value_push(collection: &mut DynamicValue, element: DynamicValue) -> (r: Result<(), DynamicValue>)
    ensures
        *old(collection) is Sequence ==> r is Ok && *final(collection) is Sequence && (*final(collection))->Sequence_0@
            == (*old(collection))->Sequence_0@.push(element),
        *old(collection) is Array ==> r is Ok && *final(collection) is Array && (*final(collection))->Array_0@ == (
            *old(collection))->Array_0@.push(element),
        !(*old(collection) is Sequence || *old(collection) is Array) ==> r == Err::<(), DynamicValue>(element)
            && *final(collection) == *old(collection),
{
    match collection {
        DynamicValue::Sequence(items) => {
            items.push(element);
            Ok(())
        },
        DynamicValue::Array(items) => {
            items.push(element);
            Ok(())
        },
        _ => Err(element),
    }
}

/// Add a key/value entry at the end of a map value. Any other value is a
/// type mismatch: it is left as it was and the entry is handed back.
pub fn int2dds_dynamic_value_map_insert(map: &mut DynamicValue, key: DynamicValue, value: DynamicValue) -> (r: Result<
    (),
    (DynamicValue, DynamicValue),
>)
    ensures
        *old(map) is Mapping ==> r is Ok && *final(map) is Mapping && (*final(map))->Mapping_0@ == (
            *old(map))->Mapping_0@.push((key, value)),
        !(*old(map) is Mapping) ==> r == Err::<(), (DynamicValue, DynamicValue)>((key, value)) && *final(map)
            == *old(map),
{
    match map {
        DynamicValue::Mapping(pairs) => {
            pairs.push((key, value));
            Ok(())
        },
        _ => Err((key, value)),
    }
}

/// The element count of a sequence, array or map value.
pub fn int2dds_dynamic_value_len(value: &DynamicValue) -> (r: Result<usize, Int2DdsRet>)
    ensures
        match *value {
            DynamicValue::Sequence(items) => r == Ok::<usize, Int2DdsRet>(items@.len() as usize),
            DynamicValue::Array(items) => r == Ok::<usize, Int2DdsRet>(items@.len() as usize),
            DynamicValue::Mapping(pairs) => r == Ok::<usize, Int2DdsRet>(pairs@.len() as usize),
            _ => r == Err::<usize, Int2DdsRet>(INT2DDS_RET_DYNAMIC_TYPE_MISMATCH),
        },
{
    match value {
        DynamicValue::Sequence(items) => Ok(items.len()),
        DynamicValue::Array(items) => Ok(items.len()),
        DynamicValue::Mapping(pairs) => Ok(pairs.len()),
        _ => Err(INT2DDS_RET_DYNAMIC_TYPE_MISMATCH),
    }
}

/// The elements of a sequence or array value.
pub open spec fn spec_items(value: DynamicValue) -> Option<Seq<DynamicValue>> {
    match value {
        DynamicValue::Sequence(items) => Some(items@),
        DynamicValue::Array(items) => Some(items@),
        _ => None,
    }
}

/// The element at `index` of a sequence or array value: a type mismatch for
/// any other value, a missing field past the end.
pub fn int2dds_dynamic_value_element(value: &DynamicValue, index: usize) -> (r: Result<&DynamicValue, Int2DdsRet>)
    ensures
        match spec_items(*value) {
            None => r == Err::<&DynamicValue, Int2DdsRet>(INT2DDS_RET_DYNAMIC_TYPE_MISMATCH),
            Some(items) => if index < items.len() {
                r matches Ok(v) && *v == items[index as int]
            } else {
                r == Err::<&DynamicValue, Int2DdsRet>(INT2DDS_RET_DYNAMIC_FIELD_NOT_FOUND)
            },
        },
{
    let items = match value {
        DynamicValue::Sequence(items) => items,
        DynamicValue::Array(items) => items,
        _ => {
            return Err(INT2DDS_RET_DYNAMIC_TYPE_MISMATCH);
        },
    };
    if index < items.len() {
        Ok(&items[index])
    } else {
        Err(INT2DDS_RET_DYNAMIC_FIELD_NOT_FOUND)
    }
}

/// The key of the map entry at `index`: a type mismatch for a value that is
/// not a map, a missing field past the end.
pub fn int2dds_dynamic_value_map_key(value: &DynamicValue, index: usize) -> (r: Result<&DynamicValue, Int2DdsRet>)
    ensures
        match *value {
            DynamicValue::Mapping(pairs) => if index < pairs@.len() {
                r matches Ok(v) && *v == pairs@[index as int].0
            } else {
                r == Err::<&DynamicValue, Int2DdsRet>(INT2DDS_RET_DYNAMIC_FIELD_NOT_FOUND)
            },
            _ => r == Err::<&DynamicValue, Int2DdsRet>(INT2DDS_RET_DYNAMIC_TYPE_MISMATCH),
        },
{
    match value {
        DynamicValue::Mapping(pairs) => if index < pairs.len() {
            Ok(&pairs[index].0)
        } else {
            Err(INT2DDS_RET_DYNAMIC_FIELD_NOT_FOUND)
        },
        _ => Err(INT2DDS_RET_DYNAMIC_TYPE_MISMATCH),
    }
}

/// The value of the map entry at `index`: a type mismatch for a value that
/// is not a map, a missing field past the end.
pub fn int2dds_dynamic_value_map_value(value: &DynamicValue, index: usize) -> (r: Result<&DynamicValue, Int2DdsRet>)
    ensures
        match *value {
            DynamicValue::Mapping(pairs) => if index < pairs@.len() {
                r matches Ok(v) && *v == pairs@[index as int].1
            } else {
                r == Err::<&DynamicValue, Int2DdsRet>(INT2DDS_RET_DYNAMIC_FIELD_NOT_FOUND)
            },
            _ => r == Err::<&DynamicValue, Int2DdsRet>(INT2DDS_RET_DYNAMIC_TYPE_MISMATCH),
        },
{
    match value {
        DynamicValue::Mapping(pairs) => if index < pairs.len() {
            Ok(&pairs[index].1)
        } else {
            Err(INT2DDS_RET_DYNAMIC_FIELD_NOT_FOUND)
        },
        _ => Err(INT2DDS_RET_DYNAMIC_TYPE_MISMATCH),
    }
}

/// The members of a struct value; any other value is a type mismatch.
pub fn int2dds_dynamic_value_as_struct(value: &DynamicValue) -> (r: Result<&DynamicData, Int2DdsRet>)
    ensures
        match *value {
            DynamicValue::Struct(d) => r matches Ok(x) && *x == *d,
            _ => r == Err::<&DynamicData, Int2DdsRet>(INT2DDS_RET_DYNAMIC_TYPE_MISMATCH),
        },
{
    match value {
        DynamicValue::Struct(d) => Ok(&**d),
        _ => Err(INT2DDS_RET_DYNAMIC_TYPE_MISMATCH),
    }
}

/// The discriminator of a union value; any other value is a type mismatch.
pub fn int2dds_dynamic_value_union_discriminator(value: &DynamicValue) -> (r: Result<&DynamicValue, Int2DdsRet>)
    ensures
        match *value {
            DynamicValue::Union { discriminator, .. } => r matches Ok(x) && *x == *discriminator,
            _ => r == Err::<&DynamicValue, Int2DdsRet>(INT2DDS_RET_DYNAMIC_TYPE_MISMATCH),
        },
{
    match value {
        DynamicValue::Union { discriminator, .. } => Ok(&**discriminator),
        _ => Err(INT2DDS_RET_DYNAMIC_TYPE_MISMATCH),
    }
}

/// The selected branch value of a union value; any other value is a type
/// mismatch.
pub fn int2dds_dynamic_value_union_value(value: &DynamicValue) -> (r: Result<&DynamicValue, Int2DdsRet>)
    ensures
        match *value {
            DynamicValue::Union { value: v, .. } => r matches Ok(x) && *x == *v,
            _ => r == Err::<&DynamicValue, Int2DdsRet>(INT2DDS_RET_DYNAMIC_TYPE_MISMATCH),
        },
{
    match value {
        DynamicValue::Union { value: v, .. } => Ok(&**v),
        _ => Err(INT2DDS_RET_DYNAMIC_TYPE_MISMATCH),
    }
}

/// The text of a string or wide-string value; any other value is a type
/// mismatch.
pub fn int2dds_dynamic_value_as_string(value: &DynamicValue) -> (r: Result<&str, Int2DdsRet>)
    ensures
        match *value {
            DynamicValue::String(s) => r matches Ok(x) && x@ == s@,
            DynamicValue::WString(s) => r matches Ok(x) && x@ == s@,
            _ => r == Err::<&str, Int2DdsRet>(INT2DDS_RET_DYNAMIC_TYPE_MISMATCH),
        },
{
    match value {
        DynamicValue::String(s) => Ok(s.as_str()),
        DynamicValue::WString(s) => Ok(s.as_str()),
        _ => Err(INT2DDS_RET_DYNAMIC_TYPE_MISMATCH),
    }
}

/// The literal name and numeric value of an enum value; any other value is
/// a type mismatch.
pub fn int2dds_dynamic_value_as_enum(value: &DynamicValue) -> (r: Result<(&str, i32), Int2DdsRet>)
    ensures
        match *value {
            DynamicValue::Enum { name, value: v } => r matches Ok((x, n)) && x@ == name@ && n == v,
            _ => r == Err::<(&str, i32), Int2DdsRet>(INT2DDS_RET_DYNAMIC_TYPE_MISMATCH),
        },
{
    match value {
        DynamicValue::Enum { name, value: v } => Ok((name.as_str(), *v)),
        _ => Err(INT2DDS_RET_DYNAMIC_TYPE_MISMATCH),
    }
}

/// The packed bits of a bitmask value; any other value is a type mismatch.
pub fn int2dds_dynamic_value_as_bitmask(value: &DynamicValue) -> (r: Result<u64, Int2DdsRet>)
    ensures
        match *value {
            DynamicValue::Bitmask(b) => r == Ok::<u64, Int2DdsRet>(b),
            _ => r == Err::<u64, Int2DdsRet>(INT2DDS_RET_DYNAMIC_TYPE_MISMATCH),
        },
{
    match value {
        DynamicValue::Bitmask(b) => Ok(*b),
        _ => Err(INT2DDS_RET_DYNAMIC_TYPE_MISMATCH),
    }
}

/// The packed bit fields of a bitset value; any other value is a type
/// mismatch.
pub fn int2dds_dynamic_value_as_bitset(value: &DynamicValue) -> (r: Result<u64, Int2DdsRet>)
    ensures
        match *value {
            DynamicValue::Bitset(b) => r == Ok::<u64, Int2DdsRet>(b),
            _ => r == Err::<u64, Int2DdsRet>(INT2DDS_RET_DYNAMIC_TYPE_MISMATCH),
        },
{
    match value {
        DynamicValue::Bitset(b) => Ok(*b),
        _ => Err(INT2DDS_RET_DYNAMIC_TYPE_MISMATCH),
    }
}

/// The value at a dotted and indexed field path; a missing field when the
/// path reaches nothing.
pub fn int2dds_dynamic_data_get_value<'a>(data: &'a DynamicData, path: &str) -> (r: Result<&'a DynamicValue, Int2DdsRet>)
    ensures
        match resolve_from(*data, None, path.spec_bytes()) {
            None => r == Err::<&DynamicValue, Int2DdsRet>(INT2DDS_RET_DYNAMIC_FIELD_NOT_FOUND),
            Some(v) => r matches Ok(x) && *x == v,
        },
{
    match resolve_path(data, path) {
        Some(v) => Ok(v),
        None => Err(INT2DDS_RET_DYNAMIC_FIELD_NOT_FOUND),
    }
}

} // verus!
