//! Type support for runtime-defined types: serializes and deserializes
//! samples of a type descriptor as XCDR1 or XCDR2, and derives their keys.

use vstd::prelude::*;

use crate::cdr::{body_pos, put_aligned, read_at, take_u32, u32_from, u32_le, ENCAPSULATION_LEN};
use crate::codec::{
    codec_error_spec, deserialize_fields, deserialize_value, serialize_fields, serialize_value, CodecError,
};
use crate::codec_spec::{de_fields, ser_fields, ser_value, SpecCodecError};
use crate::data::{lemma_opt_views_update, opt_view, opt_views, FieldValue, Int2DdsData, SpecValue};
use crate::encoding::{
    cdr_decoding, cdr_encoding, de_members, emheader, first_missing, key_encoding, lemma_first_missing_is,
    lemma_member_index_is, member_index, member_step, mutable_decoding, no_values, MemberStep, ser_key_fields,
    ser_member, ser_members, xcdr2_decoding, xcdr2_encoding, xcdr2_header, SpecDecodeError, SENTINEL_MEMBER_ID,
    cdr_header,
};
use crate::error::DdsError;
use crate::key_hash::{key_bytes, sample_key, spec_compute_key};
use crate::text::owned;
use crate::type_descriptor::{
    first_field_index, ExtensibilityKind, FieldDescriptor, FieldTypeInfo, Int2DdsTypeDescriptor,
    Int2DdsXcdrVersion,
};

verus! {

/// The message of a serialization error.
pub open spec fn encode_error_message(e: SpecCodecError) -> Seq<char> {
    match e {
        SpecCodecError::Missing(name) => "Missing required field: "@ + name,
        SpecCodecError::Mismatch => "Type mismatch during serialization"@,
        SpecCodecError::TooLarge => "Length does not fit in 32 bits"@,
    }
}

/// The message of a deserialization error; `too_short` names the header
/// that is missing.
pub open spec fn decode_error_message(e: SpecDecodeError, too_short: Seq<char>) -> Seq<char> {
    match e {
        SpecDecodeError::TooShort => too_short,
        SpecDecodeError::Malformed => "Malformed serialized data"@,
        SpecDecodeError::Missing(name) => "Missing required field: "@ + name,
        SpecDecodeError::Overrun => "Struct exceeds its declared size"@,
    }
}

/// `r` is the outcome of serializing with specified outcome `s`.
pub open spec fn encode_outcome(s: Result<Seq<u8>, SpecCodecError>, r: Result<Vec<u8>, DdsError>) -> bool {
    match s {
        Ok(b) => r matches Ok(v) && v@ == b,
        Err(e) => r matches Err(DdsError::Error(m)) && m@ == encode_error_message(e),
    }
}

/// `r` is the outcome of deserializing with specified outcome `s`.
pub open spec fn decode_outcome(
    s: Result<Seq<Option<SpecValue>>, SpecDecodeError>,
    r: Result<Int2DdsData, DdsError>,
    too_short: Seq<char>,
) -> bool {
    match s {
        Ok(vals) => r matches Ok(d) && d@ == vals,
        Err(e) => r matches Err(DdsError::Error(m)) && m@ == decode_error_message(e, too_short),
    }
}

/// "Missing required field: " followed by the name.
pub fn missing_field_message(name: &str) -> (m: String)
    ensures
        m@ == "Missing required field: "@ + name@,
{
    let mut m = owned("Missing required field: ");
    proof {
        reveal_strlit("Missing required field: ");
    }
    m.append(name);
    m
}

/// The library error of a codec error.
pub fn encode_error(e: CodecError) -> (r: DdsError)
    ensures
        r matches DdsError::Error(m) && m@ == encode_error_message(codec_error_spec(e)),
{
    match e {
        CodecError::MissingField(name) => DdsError::Error(missing_field_message(name.as_str())),
        CodecError::TypeMismatch => DdsError::Error(owned("Type mismatch during serialization")),
        CodecError::TooLarge => DdsError::Error(owned("Length does not fit in 32 bits")),
    }
}

/// The library error of a malformed input.
pub fn malformed() -> (r: DdsError)
    ensures
        r matches DdsError::Error(m) && m@ == decode_error_message(SpecDecodeError::Malformed, Seq::empty()),
{
    DdsError::Error(owned("Malformed serialized data"))
}

/// Overwrite four bytes at `at` with a little-endian `u32`.
pub fn patch_u32(out: &mut Vec<u8>, at: usize, x: u32)
    requires
        at + 4 <= old(out)@.len(),
    ensures
        final(out)@ == old(out)@.take(at as int) + u32_le(x) + old(out)@.skip(at + 4),
{
    let b = vstd::bytes::u32_to_le_bytes(x);
    let n = out.len();
    assert(at + 4 <= n);
    out.set(at, b[0]);
    out.set(at + 1, b[1]);
    out.set(at + 2, b[2]);
    out.set(at + 3, b[3]);
    assert(out@ =~= old(out)@.take(at as int) + u32_le(x) + old(out)@.skip(at + 4));
}

/// Index of the first field whose member id is `id`.
pub fn find_member(fields: &Vec<FieldDescriptor>, id: u32) -> (r: Option<usize>)
    ensures
        r matches Some(i) ==> member_index(fields@, id) == Some(i as int) && i < fields@.len()
            && fields@[i as int].member_id == id,
        r is None ==> member_index(fields@, id) is None,
{
    let mut i: usize = 0;
    while i < fields.len()
        invariant
            i <= fields@.len(),
            forall|j: int| 0 <= j < i ==> #[trigger] fields@[j].member_id != id,
        decreases fields@.len() - i,
    {
        if fields[i].member_id == id {
            proof {
                lemma_member_index_is(fields@, id, i as int);
            }
            return Some(i);
        }
        i += 1;
    }
    None
}

/// Once writing the first `n` members fails, writing more fails the same way.
pub proof fn lemma_ser_members_err(
    vals: Seq<Option<SpecValue>>,
    fields: Seq<FieldDescriptor>,
    pos: nat,
    n: nat,
    m: nat,
)
    requires
        n <= m <= fields.len(),
        ser_members(vals, fields, pos, n) is Err,
    ensures
        ser_members(vals, fields, pos, m) == ser_members(vals, fields, pos, n),
    decreases m - n,
{
    if n < m {
        lemma_ser_members_err(vals, fields, pos, n, (m - 1) as nat);
    }
}

/// Once writing the first `n` key fields fails, writing more fails the same way.
pub proof fn lemma_ser_key_fields_err(
    vals: Seq<Option<SpecValue>>,
    fields: Seq<FieldDescriptor>,
    pos: nat,
    n: nat,
    m: nat,
)
    requires
        n <= m <= fields.len(),
        ser_key_fields(vals, fields, pos, n) is Err,
    ensures
        ser_key_fields(vals, fields, pos, m) == ser_key_fields(vals, fields, pos, n),
    decreases m - n,
{
    if n < m {
        lemma_ser_key_fields_err(vals, fields, pos, n, (m - 1) as nat);
    }
}

/// Reading fields gives one value per field read.
pub proof fn lemma_de_fields_len(
    fields: Seq<FieldDescriptor>,
    n: nat,
    buf: Seq<u8>,
    pos: nat,
    le: bool,
    x2: bool,
)
    requires
        n <= fields.len(),
    ensures
        de_fields(fields, n, buf, pos, le, x2) matches Some((vs, _)) ==> vs.len() == n,
    decreases n,
{
    if n > 0 {
        lemma_de_fields_len(fields, (n - 1) as nat, buf, pos, le, x2);
    }
}

/// A size capped at `usize::MAX`.
pub open spec fn capped(x: nat) -> nat {
    if x > usize::MAX {
        usize::MAX as nat
    } else {
        x
    }
}

/// Size estimate of one element of a collection type.
pub open spec fn est_elem(t: FieldTypeInfo) -> nat {
    match t {
        FieldTypeInfo::Bool | FieldTypeInfo::Int8 | FieldTypeInfo::UInt8 => 1,
        FieldTypeInfo::Int16 | FieldTypeInfo::UInt16 => 3,
        FieldTypeInfo::Int32 | FieldTypeInfo::UInt32 | FieldTypeInfo::Float32 => 7,
        FieldTypeInfo::Int64 | FieldTypeInfo::UInt64 | FieldTypeInfo::Float64 => 15,
        FieldTypeInfo::String { max_length } => (4 + max_length) as nat,
        FieldTypeInfo::Bytes { max_length } => (4 + max_length) as nat,
        _ => 32,
    }
}

/// Size estimate of a value of a type: its size with room for alignment,
/// and 16 when the value does not have the type's shape.
pub open spec fn est_value(v: SpecValue, t: FieldTypeInfo) -> nat
    decreases v, 1nat,
{
    match (v, t) {
        (SpecValue::Bool(_), FieldTypeInfo::Bool) => 1,
        (SpecValue::Int8(_), FieldTypeInfo::Int8) => 1,
        (SpecValue::UInt8(_), FieldTypeInfo::UInt8) => 1,
        (SpecValue::Int16(_), FieldTypeInfo::Int16) => 3,
        (SpecValue::UInt16(_), FieldTypeInfo::UInt16) => 3,
        (SpecValue::Int32(_), FieldTypeInfo::Int32) => 7,
        (SpecValue::UInt32(_), FieldTypeInfo::UInt32) => 7,
        (SpecValue::Int64(_), FieldTypeInfo::Int64) => 15,
        (SpecValue::UInt64(_), FieldTypeInfo::UInt64) => 15,
        (SpecValue::Float32(_), FieldTypeInfo::Float32) => 7,
        (SpecValue::Float64(_), FieldTypeInfo::Float64) => 15,
        (SpecValue::Str(c), FieldTypeInfo::String { .. }) => (8 + vstd::utf8::encode_utf8(c).len()) as nat,
        (SpecValue::Bytes(b), FieldTypeInfo::Bytes { .. }) => (4 + b.len()) as nat,
        (SpecValue::Bytes(b), FieldTypeInfo::Sequence { element_type, .. }) => if *element_type is UInt8 {
            (4 + b.len()) as nat
        } else {
            16
        },
        (SpecValue::Sequence(items), FieldTypeInfo::Sequence { element_type, .. }) => (11 + items.len()
            * est_elem(*element_type)) as nat,
        (SpecValue::Array(items), FieldTypeInfo::Array { element_type, .. }) => (7 + items.len() * est_elem(
            *element_type,
        )) as nat,
        (SpecValue::Struct(vals), FieldTypeInfo::Struct { descriptor }) => est_present(
            vals,
            descriptor.fields@,
            descriptor.fields@.len(),
        ),
        _ => 16,
    }
}

/// Sum of the estimates of the present values among the first `n` fields.
pub open spec fn est_present(vals: Seq<Option<SpecValue>>, fields: Seq<FieldDescriptor>, n: nat) -> nat
    decreases vals, n,
{
    if n == 0 || n > fields.len() {
        0
    } else {
        (est_present(vals, fields, (n - 1) as nat) + if n - 1 < vals.len() && vals[n - 1] is Some {
            est_value(vals[n - 1]->0, fields[n - 1].field_type)
        } else {
            0nat
        }) as nat
    }
}

/// Capping before adding caps the same as capping after.
pub proof fn lemma_capped_add(p: nat, k: nat)
    ensures
        capped(capped(p) + k) == capped(p + k),
{
}

/// Capping a factor caps the product the same way.
pub proof fn lemma_capped_mul(n: nat, e: nat)
    ensures
        capped(n * capped(e)) == capped(n * e),
{
    if n > 0 && e > usize::MAX {
        let m = usize::MAX as nat;
        assert(n * m >= m) by (nonlinear_arith)
            requires
                n >= 1,
        ;
        assert(n * e >= e) by (nonlinear_arith)
            requires
                n >= 1,
        ;
    }
    if n == 0 {
        assert(n * capped(e) == 0 && n * e == 0);
    }
}

/// `a * b`, or `usize::MAX` when that does not fit.
fn mul_capped(a: usize, b: usize) -> (r: usize)
    ensures
        r == capped(a as nat * b as nat),
{
    match a.checked_mul(b) {
        Some(p) => p,
        None => usize::MAX,
    }
}

/// Size estimate of one element of a collection type, capped at `usize::MAX`.
pub fn estimate_element_type_size(element_type: &FieldTypeInfo) -> (r: usize)
    ensures
        r == capped(est_elem(*element_type)),
{
    match element_type {
        FieldTypeInfo::Bool | FieldTypeInfo::Int8 | FieldTypeInfo::UInt8 => 1,
        FieldTypeInfo::Int16 | FieldTypeInfo::UInt16 => 3,
        FieldTypeInfo::Int32 | FieldTypeInfo::UInt32 | FieldTypeInfo::Float32 => 7,
        FieldTypeInfo::Int64 | FieldTypeInfo::UInt64 | FieldTypeInfo::Float64 => 15,
        FieldTypeInfo::String { max_length } => (*max_length as usize).saturating_add(4),
        FieldTypeInfo::Bytes { max_length } => (*max_length as usize).saturating_add(4),
        _ => 32,
    }
}

/// Size estimate of a value of a type, for pre-allocating a buffer; capped
/// at `usize::MAX`.
pub fn estimate_value_size(value: &FieldValue, field_type: &FieldTypeInfo) -> (r: usize)
    ensures
        r == capped(est_value(value@, *field_type)),
    decreases value,
{
    match (value, field_type) {
        (FieldValue::Bool(_), FieldTypeInfo::Bool) => 1,
        (FieldValue::Int8(_), FieldTypeInfo::Int8) => 1,
        (FieldValue::UInt8(_), FieldTypeInfo::UInt8) => 1,
        (FieldValue::Int16(_), FieldTypeInfo::Int16) => 3,
        (FieldValue::UInt16(_), FieldTypeInfo::UInt16) => 3,
        (FieldValue::Int32(_), FieldTypeInfo::Int32) => 7,
        (FieldValue::UInt32(_), FieldTypeInfo::UInt32) => 7,
        (FieldValue::Int64(_), FieldTypeInfo::Int64) => 15,
        (FieldValue::UInt64(_), FieldTypeInfo::UInt64) => 15,
        (FieldValue::Float32(_), FieldTypeInfo::Float32) => 7,
        (FieldValue::Float64(_), FieldTypeInfo::Float64) => 15,
        (FieldValue::String(s), FieldTypeInfo::String { .. }) => s.as_str().as_bytes().len().saturating_add(8),
        (FieldValue::Bytes(b), FieldTypeInfo::Bytes { .. }) => b.len().saturating_add(4),
        (FieldValue::Bytes(b), FieldTypeInfo::Sequence { element_type, .. }) => match **element_type {
            FieldTypeInfo::UInt8 => b.len().saturating_add(4),
            _ => 16,
        },
        (FieldValue::Sequence(items), FieldTypeInfo::Sequence { element_type, .. }) => {
            let e = estimate_element_type_size(element_type);
            proof {
                lemma_capped_mul(items@.len(), est_elem(**element_type));
                lemma_capped_add(items@.len() * est_elem(**element_type), 11);
            }
            mul_capped(items.len(), e).saturating_add(11)
        },
        (FieldValue::Array(items), FieldTypeInfo::Array { element_type, .. }) => {
            let e = estimate_element_type_size(element_type);
            proof {
                lemma_capped_mul(items@.len(), est_elem(**element_type));
                lemma_capped_add(items@.len() * est_elem(**element_type), 7);
            }
            mul_capped(items.len(), e).saturating_add(7)
        },
        (FieldValue::Struct(nested), FieldTypeInfo::Struct { descriptor }) => estimate_present(
            &nested.values,
            &descriptor.fields,
        ),
        _ => 16,
    }
}

/// Sum of the estimates of the present values of a struct, capped.
pub fn estimate_present(values: &Vec<Option<FieldValue>>, fields: &Vec<FieldDescriptor>) -> (r: usize)
    ensures
        r == capped(est_present(opt_views(values@), fields@, fields@.len())),
    decreases *values,
{
    let ghost vals = opt_views(values@);
    let mut size: usize = 0;
    let mut i: usize = 0;
    while i < fields.len()
        invariant
            i <= fields@.len(),
            vals == opt_views(values@),
            size == capped(est_present(vals, fields@, i as nat)),
        decreases fields@.len() - i,
    {
        if i < values.len() {
            match &values[i] {
                Some(v) => {
                    proof {
                        vstd::std_specs::vec::axiom_vec_index_decreases(*values, i as int);
                        assert(vals[i as int] == Some(v@));
                    }
                    let e = estimate_value_size(v, &fields[i].field_type);
                    size = size.saturating_add(e);
                },
                None => {},
            }
        }
        i += 1;
    }
    size
}

/// A field value as a content-filter parameter. Floating-point values keep
/// their IEEE-754 bit patterns; the filter reads them as `f64`.
#[derive(Debug)]
pub enum Parameter {
    IntegerValue(i32),
    /// An `f32`, widened to `f64` by the filter.
    Float32Bits(u32),
    /// An `f64`.
    Float64Bits(u64),
    String(String),
}

/// The filter parameter of a value: integers as `i32` (wider ones
/// truncated, booleans as 0 or 1), floats as floats, text as text; other
/// kinds have none.
pub open spec fn spec_parameter(v: SpecValue) -> Option<SpecParameter> {
    match v {
        SpecValue::Bool(b) => Some(SpecParameter::IntegerValue(if b { 1 } else { 0 })),
        SpecValue::Int8(x) => Some(SpecParameter::IntegerValue(x as i32)),
        SpecValue::UInt8(x) => Some(SpecParameter::IntegerValue(x as i32)),
        SpecValue::Int16(x) => Some(SpecParameter::IntegerValue(x as i32)),
        SpecValue::UInt16(x) => Some(SpecParameter::IntegerValue(x as i32)),
        SpecValue::Int32(x) => Some(SpecParameter::IntegerValue(x)),
        SpecValue::UInt32(x) => Some(SpecParameter::IntegerValue(x as i32)),
        SpecValue::Int64(x) => Some(SpecParameter::IntegerValue(x as i32)),
        SpecValue::UInt64(x) => Some(SpecParameter::IntegerValue(x as i32)),
        SpecValue::Float32(x) => Some(SpecParameter::Float32Bits(x)),
        SpecValue::Float64(x) => Some(SpecParameter::Float64Bits(x)),
        SpecValue::Str(c) => Some(SpecParameter::String(c)),
        _ => None,
    }
}

/// Mathematical filter parameter.
pub enum SpecParameter {
    IntegerValue(i32),
    Float32Bits(u32),
    Float64Bits(u64),
    String(Seq<char>),
}

/// The mathematical value of a filter parameter.
pub open spec fn parameter_view(p: Parameter) -> SpecParameter {
    match p {
        Parameter::IntegerValue(x) => SpecParameter::IntegerValue(x),
        Parameter::Float32Bits(x) => SpecParameter::Float32Bits(x),
        Parameter::Float64Bits(x) => SpecParameter::Float64Bits(x),
        Parameter::String(s) => SpecParameter::String(s@),
    }
}

/// The encoding selected for a serialization call.
#[derive(Debug, Clone, Copy, PartialEq, Eq, Structural)]
pub enum WireFormat {
    /// XCDR1, classic CDR.
    Cdr,
    /// XCDR2, framed for the type's extensibility.
    Xcdr2,
}

/// Type support for samples of one runtime-defined type.
#[derive(Debug)]
pub struct DynamicTypeSupport {
    /// The type whose samples are handled.
    pub descriptor: Int2DdsTypeDescriptor,
}

impl DynamicTypeSupport {
    /// Type support for the given type.
    pub fn new(descriptor: Int2DdsTypeDescriptor) -> (r: Self)
        ensures
            r.descriptor == descriptor,
    {
        DynamicTypeSupport { descriptor }
    }

    /// The name of the type.
    pub fn get_type_name(&self) -> (r: &str)
        ensures
            r@ == self.descriptor.typename@,
    {
        self.descriptor.typename.as_str()
    }

    /// The value of a field as a content-filter parameter: unsupported for
    /// collections, structs and byte buffers, and "Field not found: "
    /// followed by the path when the field is unknown or has no value.
    #[verifier::spinoff_prover]
    #[verifier::rlimit(30)]
    pub fn get_field_value(&self, data: &Int2DdsData, field_path: &str) -> (r: Result<Parameter, DdsError>)
        requires
            data.values@.len() == self.descriptor.fields@.len(),
        ensures
            ({
                let v = match first_field_index(self.descriptor.fields@, field_path@) {
                    Some(i) => opt_view(data.values@[i]),
                    None => None,
                };
                match v {
                    None => r matches Err(DdsError::Error(m)) && m@ == crate::data::field_not_found_message(
                        field_path@,
                    ),
                    Some(x) => match spec_parameter(x) {
                        Some(p) => r matches Ok(q) && parameter_view(q) == p,
                        None => r matches Err(DdsError::Unsupported),
                    },
                }
            }),
    {
        proof {
            crate::type_descriptor::lemma_first_index_bounds(self.descriptor.fields@, field_path@);
        }
        match data.get_value(&self.descriptor, field_path) {
            Some(FieldValue::Bool(v)) => Ok(Parameter::IntegerValue(if *v { 1 } else { 0 })),
            Some(FieldValue::Int8(v)) => Ok(Parameter::IntegerValue(*v as i32)),
            Some(FieldValue::UInt8(v)) => Ok(Parameter::IntegerValue(*v as i32)),
            Some(FieldValue::Int16(v)) => Ok(Parameter::IntegerValue(*v as i32)),
            Some(FieldValue::UInt16(v)) => Ok(Parameter::IntegerValue(*v as i32)),
            Some(FieldValue::Int32(v)) => Ok(Parameter::IntegerValue(*v)),
            Some(FieldValue::UInt32(v)) => Ok(Parameter::IntegerValue(*v as i32)),
            Some(FieldValue::Int64(v)) => Ok(Parameter::IntegerValue(*v as i32)),
            Some(FieldValue::UInt64(v)) => Ok(Parameter::IntegerValue(*v as i32)),
            Some(FieldValue::Float32(v)) => Ok(Parameter::Float32Bits(*v)),
            Some(FieldValue::Float64(v)) => Ok(Parameter::Float64Bits(*v)),
            Some(FieldValue::String(v)) => Ok(Parameter::String(owned(v.as_str()))),
            Some(_) => Err(DdsError::Unsupported),
            None => Err(DdsError::Error(crate::data::field_not_found(field_path))),
        }
    }

    /// Whether the type has a field with the given name.
    pub fn has_field(&self, name: &str) -> (r: bool)
        ensures
            r == (crate::type_descriptor::first_field_index(self.descriptor.fields@, name@) is Some),
    {
        self.descriptor.get_field(name).is_some()
    }

    /// Whether the type has key fields, so that samples have a computed key.
    pub fn is_compute_key_provided(&self) -> (r: bool)
        ensures
            r == crate::type_descriptor::spec_has_key(self.descriptor.fields@),
    {
        self.descriptor.has_key()
    }

    /// The instance key of a sample: nil when the type has no key field,
    /// else the bytes of its key fields' values folded into sixteen bytes.
    pub fn compute_key(&self, data: &Int2DdsData) -> (r: [u8; 16])
        requires
            key_bytes(data@, self.descriptor.fields@, self.descriptor.fields@.len()).len() <= usize::MAX,
        ensures
            r@ == spec_compute_key(data@, self.descriptor.fields@),
    {
        sample_key(&self.descriptor.fields, data)
    }

    /// Size estimate of a serialized sample: the encapsulation header and the
    /// estimate of every present field, capped at `usize::MAX`.
    pub fn estimate_serialized_size(&self, data: &Int2DdsData) -> (r: usize)
        ensures
            r == capped(4 + est_present(data@, self.descriptor.fields@, self.descriptor.fields@.len())),
    {
        estimate_present(&data.values, &self.descriptor.fields).saturating_add(4)
    }

    /// The extensibility of the type.
    pub fn get_extensibility_kind(&self) -> (r: ExtensibilityKind)
        ensures
            r == self.descriptor.extensibility,
    {
        self.descriptor.extensibility
    }

    /// Serialize a sample as little-endian XCDR1: every field in order, each
    /// required to have a value.
    pub fn serialize_cdr(&self, data: &Int2DdsData) -> (r: Result<Vec<u8>, DdsError>)
        ensures
            encode_outcome(cdr_encoding(data@, self.descriptor.fields@), r),
    {
        let mut out: Vec<u8> = vec![0u8, 1u8, 0u8, 0u8];
        assert(out@ == cdr_header());
        match serialize_fields(&mut out, &data.values, &self.descriptor.fields, false) {
            Ok(()) => Ok(out),
            Err(e) => Err(encode_error(e)),
        }
    }

    /// Serialize the key fields of a sample as little-endian XCDR1; key
    /// fields without a value are left out.
    pub fn serialize_key_fields(&self, data: &Int2DdsData) -> (r: Result<Vec<u8>, DdsError>)
        ensures
            encode_outcome(key_encoding(data@, self.descriptor.fields@), r),
    {
        let mut out: Vec<u8> = vec![0u8, 1u8, 0u8, 0u8];
        let ghost start = out@;
        let ghost vals = data@;
        let fields = &self.descriptor.fields;
        let mut i: usize = 0;
        while i < fields.len()
            invariant
                i <= fields@.len(),
                fields@ == self.descriptor.fields@,
                vals == data@,
                start == cdr_header(),
                ser_key_fields(vals, fields@, 0, i as nat) matches Ok(b) && out@ == start + b,
            decreases fields@.len() - i,
        {
            let ghost prefix = ser_key_fields(vals, fields@, 0, i as nat)->Ok_0;
            if fields[i].is_key && i < data.values.len() {
                match &data.values[i] {
                    Some(v) => {
                        let res = serialize_value(&mut out, v, &fields[i].field_type, false);
                        match res {
                            Ok(()) => {
                                proof {
                                    let b = ser_value(v@, fields@[i as int].field_type, prefix.len(), false)->Ok_0;
                                    assert(out@ == start + (prefix + b));
                                }
                            },
                            Err(e) => {
                                proof {
                                    lemma_ser_key_fields_err(vals, fields@, 0, (i + 1) as nat, fields@.len());
                                }
                                return Err(encode_error(e));
                            },
                        }
                    },
                    None => {},
                }
            }
            i += 1;
        }
        Ok(out)
    }

    /// Serialize a sample as little-endian XCDR2, framed for the type's
    /// extensibility.
    pub fn serialize_xcdr2(&self, data: &Int2DdsData) -> (r: Result<Vec<u8>, DdsError>)
        ensures
            encode_outcome(xcdr2_encoding(data@, self.descriptor.fields@, self.descriptor.extensibility), r),
    {
        let id: u8 = match self.descriptor.extensibility {
            ExtensibilityKind::Final => 7,
            ExtensibilityKind::Appendable => 9,
            ExtensibilityKind::Mutable => 11,
        };
        let mut out: Vec<u8> = vec![0u8, id, 0u8, 0u8];
        let ghost hdr = out@;
        assert(hdr == xcdr2_header(self.descriptor.extensibility));
        match self.descriptor.extensibility {
            ExtensibilityKind::Final => {
                match serialize_fields(&mut out, &data.values, &self.descriptor.fields, true) {
                    Ok(()) => Ok(out),
                    Err(e) => Err(encode_error(e)),
                }
            },
            ExtensibilityKind::Appendable => {
                out.push(0u8);
                out.push(0u8);
                out.push(0u8);
                out.push(0u8);
                let ghost mid = out@;
                match serialize_fields(&mut out, &data.values, &self.descriptor.fields, true) {
                    Ok(()) => {},
                    Err(e) => return Err(encode_error(e)),
                }
                let ghost body = ser_fields(data@, self.descriptor.fields@, 4, true, self.descriptor.fields@.len())->Ok_0;
                assert(out@ == mid + body);
                let len = out.len() - 8;
                if len > 0xffff_ffff {
                    return Err(encode_error(CodecError::TooLarge));
                }
                patch_u32(&mut out, 4, len as u32);
                assert(out@ =~= hdr + (u32_le(len as u32) + body));
                Ok(out)
            },
            ExtensibilityKind::Mutable => {
                out.push(0u8);
                out.push(0u8);
                out.push(0u8);
                out.push(0u8);
                let ghost mid = out@;
                match serialize_members(&mut out, &data.values, &self.descriptor.fields) {
                    Ok(()) => {},
                    Err(e) => return Err(encode_error(e)),
                }
                let ghost body = ser_members(data@, self.descriptor.fields@, 4, self.descriptor.fields@.len())->Ok_0;
                assert(out@ == mid + body);
                let len = out.len() - 8;
                if len > 0xffff_ffff {
                    return Err(encode_error(CodecError::TooLarge));
                }
                patch_u32(&mut out, 4, len as u32);
                assert(out@ =~= hdr + (u32_le(len as u32) + body));
                Ok(out)
            },
        }
    }

    /// Deserialize XCDR1 bytes: every field in order.
    pub fn deserialize_cdr(&self, data: &[u8]) -> (r: Result<Int2DdsData, DdsError>)
        ensures
            decode_outcome(cdr_decoding(data@, self.descriptor.fields@), r, "Data too short for CDR header"@),
            r matches Ok(d) ==> d.values@.len() == self.descriptor.fields@.len(),
    {
        if data.len() < ENCAPSULATION_LEN {
            return Err(DdsError::Error(owned("Data too short for CDR header")));
        }
        let le = data[1] % 2 == 1;
        proof {
            lemma_de_fields_len(self.descriptor.fields@, self.descriptor.fields@.len(), data@.skip(4), 0, le, false);
        }
        match deserialize_fields(data, 0, &self.descriptor.fields, le, false) {
            Some((values, _)) => Ok(Int2DdsData { values }),
            None => Err(malformed()),
        }
    }

    /// Deserialize XCDR2 bytes framed for the type's extensibility.
    pub fn deserialize_xcdr2(&self, data: &[u8]) -> (r: Result<Int2DdsData, DdsError>)
        ensures
            decode_outcome(
                xcdr2_decoding(data@, self.descriptor.fields@, self.descriptor.extensibility),
                r,
                "Data too short for XCDR2 header"@,
            ),
    {
        if data.len() < ENCAPSULATION_LEN {
            return Err(DdsError::Error(owned("Data too short for XCDR2 header")));
        }
        let le = data[1] % 2 == 1;
        let fields = &self.descriptor.fields;
        match self.descriptor.extensibility {
            ExtensibilityKind::Final => match deserialize_fields(data, 0, fields, le, true) {
                Some((values, _)) => Ok(Int2DdsData { values }),
                None => Err(malformed()),
            },
            ExtensibilityKind::Appendable => {
                let (size, start) = match take_u32(data, 0, le) {
                    Some(x) => x,
                    None => return Err(malformed()),
                };
                match deserialize_fields(data, start, fields, le, true) {
                    Some((values, p)) => {
                        let body_len = data.len() - ENCAPSULATION_LEN;
                        if p as u64 > start as u64 + size as u64 {
                            return Err(DdsError::Error(owned("Struct exceeds its declared size")));
                        }
                        if start as u64 + size as u64 > body_len as u64 {
                            return Err(malformed());
                        }
                        Ok(Int2DdsData { values })
                    },
                    None => Err(malformed()),
                }
            },
            ExtensibilityKind::Mutable => deserialize_mutable(data, fields, le),
        }
    }

    /// Deserialize bytes whose encoding the header announces: identifiers
    /// 0 and 1 are XCDR1, 6 through 11 are XCDR2, anything else is tried as
    /// XCDR1.
    pub fn auto_deserialize(&self, data: &[u8]) -> (r: Result<Int2DdsData, DdsError>)
        ensures
            data@.len() < 2 ==> (r matches Err(DdsError::Error(m)) && m@ == "Data too short for encoding detection"@),
            data@.len() >= 2 ==> {
                let id = data@[0] as int * 256 + data@[1] as int;
                if 6 <= id <= 11 {
                    decode_outcome(
                        xcdr2_decoding(data@, self.descriptor.fields@, self.descriptor.extensibility),
                        r,
                        "Data too short for XCDR2 header"@,
                    )
                } else {
                    decode_outcome(cdr_decoding(data@, self.descriptor.fields@), r, "Data too short for CDR header"@)
                }
            },
    {
        if data.len() < 2 {
            return Err(DdsError::Error(owned("Data too short for encoding detection")));
        }
        let id: u16 = data[0] as u16 * 256 + data[1] as u16;
        if 6 <= id && id <= 11 {
            self.deserialize_xcdr2(data)
        } else {
            self.deserialize_cdr(data)
        }
    }

    /// Serialize a sample in the requested format, or in the descriptor's
    /// XCDR version when none is requested.
    pub fn serialize(&self, data: &Int2DdsData, format: Option<WireFormat>) -> (r: Result<Vec<u8>, DdsError>)
        ensures
            ({
                let x2 = match format {
                    Some(WireFormat::Cdr) => false,
                    Some(WireFormat::Xcdr2) => true,
                    None => self.descriptor.xcdr_version == Int2DdsXcdrVersion::Xcdr2,
                };
                if x2 {
                    encode_outcome(xcdr2_encoding(data@, self.descriptor.fields@, self.descriptor.extensibility), r)
                } else {
                    encode_outcome(cdr_encoding(data@, self.descriptor.fields@), r)
                }
            }),
    {
        let x2 = match format {
            Some(WireFormat::Cdr) => false,
            Some(WireFormat::Xcdr2) => true,
            None => match self.descriptor.xcdr_version {
                Int2DdsXcdrVersion::Xcdr1 => false,
                Int2DdsXcdrVersion::Xcdr2 => true,
            },
        };
        if x2 {
            self.serialize_xcdr2(data)
        } else {
            self.serialize_cdr(data)
        }
    }

    /// Deserialize in the requested format, or detect it from the header.
    pub fn deserialize(&self, data: &[u8], format: Option<WireFormat>) -> (r: Result<Int2DdsData, DdsError>)
        ensures
            format == Some(WireFormat::Cdr) ==> decode_outcome(
                cdr_decoding(data@, self.descriptor.fields@),
                r,
                "Data too short for CDR header"@,
            ),
            format == Some(WireFormat::Xcdr2) ==> decode_outcome(
                xcdr2_decoding(data@, self.descriptor.fields@, self.descriptor.extensibility),
                r,
                "Data too short for XCDR2 header"@,
            ),
            format is None && data@.len() < 2 ==> (r matches Err(DdsError::Error(m)) && m@
                == "Data too short for encoding detection"@),
            format is None && data@.len() >= 2 ==> {
                let id = data@[0] as int * 256 + data@[1] as int;
                if 6 <= id <= 11 {
                    decode_outcome(
                        xcdr2_decoding(data@, self.descriptor.fields@, self.descriptor.extensibility),
                        r,
                        "Data too short for XCDR2 header"@,
                    )
                } else {
                    decode_outcome(cdr_decoding(data@, self.descriptor.fields@), r, "Data too short for CDR header"@)
                }
            },
    {
        match format {
            Some(WireFormat::Cdr) => self.deserialize_cdr(data),
            Some(WireFormat::Xcdr2) => self.deserialize_xcdr2(data),
            None => self.auto_deserialize(data),
        }
    }
}

/// Write one member of a mutable struct: its header, aligned to 4, then its value.
pub fn serialize_member(out: &mut Vec<u8>, x: &FieldValue, field: &FieldDescriptor) -> (r: Result<(), CodecError>)
    requires
        old(out)@.len() >= 4,
    ensures
        crate::codec::write_outcome(ser_member(x@, *field, body_pos(old(out)@)), r, old(out)@, final(out)@),
{
    let ghost start = out@;
    let ghost pos0 = body_pos(start);
    let zero4: Vec<u8> = vec![0u8, 0u8, 0u8, 0u8];
    put_aligned(out, 4, zero4.as_slice());
    let at = out.len() - 4;
    let ghost placeholder = out@;
    let vstart = out.len();
    match serialize_value(out, x, &field.field_type, true) {
        Ok(()) => {},
        Err(e) => return Err(e),
    }
    let flen = out.len() - vstart;
    let h: u32 = (field.member_id << 16u32) | ((flen % 0x10000) as u32);
    let ghost b = ser_value(x@, field.field_type, body_pos(placeholder), true)->Ok_0;
    assert(out@ == placeholder + b);
    patch_u32(out, at, h);
    proof {
        let pad = crate::cdr::pad_len(pos0, 4);
        assert(body_pos(placeholder) == pos0 + pad + 4);
        assert(h == emheader(field.member_id, b.len()));
        let m = crate::cdr::aligned(pos0, 4, u32_le(h)) + b;
        assert(out@ =~= start + m);
    }
    Ok(())
}

/// Write the members of a mutable struct: each present member behind its
/// header; absent optional members are skipped.
#[verifier::loop_isolation(false)]
pub fn serialize_members(out: &mut Vec<u8>, values: &Vec<Option<FieldValue>>, fields: &Vec<FieldDescriptor>) -> (r:
    Result<(), CodecError>)
    requires
        old(out)@.len() >= 4,
    ensures
        crate::codec::write_outcome(
            ser_members(opt_views(values@), fields@, body_pos(old(out)@), fields@.len()),
            r,
            old(out)@,
            final(out)@,
        ),
{
    let ghost start = out@;
    let ghost pos0 = body_pos(start);
    let ghost vals = opt_views(values@);
    let mut i: usize = 0;
    while i < fields.len()
        invariant
            i <= fields@.len(),
            vals == opt_views(values@),
            start.len() >= 4,
            ser_members(vals, fields@, pos0, i as nat) matches Ok(b) && out@ == start + b,
        decreases fields@.len() - i,
    {
        let ghost prefix = ser_members(vals, fields@, pos0, i as nat)->Ok_0;
        let mut handled = false;
        if i < values.len() {
            match &values[i] {
                Some(x) => {
                    handled = true;
                    match serialize_member(out, x, &fields[i]) {
                        Ok(()) => {
                            proof {
                                assert(vals[i as int] == Some(x@));
                                let m = ser_member(x@, fields@[i as int], pos0 + prefix.len())->Ok_0;
                                assert(out@ == start + (prefix + m));
                            }
                        },
                        Err(e) => {
                            proof {
                                assert(vals[i as int] == Some(x@));
                                lemma_ser_members_err(vals, fields@, pos0, (i + 1) as nat, fields@.len());
                            }
                            return Err(e);
                        },
                    }
                },
                None => {},
            }
        }
        if !handled && !fields[i].is_optional {
            proof {
                lemma_ser_members_err(vals, fields@, pos0, (i + 1) as nat, fields@.len());
            }
            return Err(CodecError::MissingField(fields[i].name.clone()));
        }
        i += 1;
    }
    Ok(())
}

/// What reading one member of a mutable struct gave.
pub enum MemberRead {
    /// The sentinel ended the list at the position.
    Stop(usize),
    /// An unknown member was skipped up to the position.
    Skip(usize),
    /// Field `i` was read; reading goes on at the position.
    Assign(usize, FieldValue, usize),
}

/// Read one member header and member at body position `p`.
pub fn read_member_step(data: &[u8], p: usize, fields: &Vec<FieldDescriptor>, le: bool) -> (r: Option<MemberRead>)
    requires
        data@.len() >= 4,
        p <= data@.len() - 4,
    ensures
        match member_step(fields@, data@.skip(4), p as nat, le) {
            MemberStep::Fail => r is None,
            MemberStep::Stop(q) => r matches Some(MemberRead::Stop(q2)) && q2 == q && q > p,
            MemberStep::Skip(q) => r matches Some(MemberRead::Skip(q2)) && q2 == q && q > p && q <= data@.len() - 4,
            MemberStep::Assign(i, v, q) => r matches Some(MemberRead::Assign(i2, fv, q2)) && i2 == i && fv@ == v && q2 == q
                && 0 <= i < fields@.len() && q > p && q <= data@.len() - 4,
        },
{
    let ghost buf = data@.skip(4);
    let ghost step = member_step(fields@, buf, p as nat, le);
    proof {
        reveal(member_step);
    }
    let body_len = data.len() - ENCAPSULATION_LEN;
    let (h, p1) = match take_u32(data, p, le) {
        Some(x) => x,
        None => {
            assert(step == MemberStep::Fail);
            return None;
        },
    };
    let id = h >> 16u32;
    let len32 = h & 0xFFFFu32;
    let len = len32 as usize;
    proof {
        let (hb, q) = read_at(buf, p as nat, 4, 4)->0;
        assert(u32_from(hb, le) == h && q == p1);
        assert(p1 > p && p1 <= body_len);
    }
    if id == SENTINEL_MEMBER_ID {
        assert(step == MemberStep::Stop(p1 as nat));
        return Some(MemberRead::Stop(p1));
    }
    match find_member(fields, id) {
        Some(i) => {
            assert(member_index(fields@, id) == Some(i as int));
            match deserialize_value(data, p1, &fields[i].field_type, le, true) {
                Some((v, p2)) => {
                    let p3 = if p2 < p1 || p2 - p1 < len {
                        if len > body_len - p1 {
                            assert(step == MemberStep::Fail);
                            return None;
                        }
                        p1 + len
                    } else {
                        p2
                    };
                    if p3 > body_len {
                        assert(step == MemberStep::Fail);
                        return None;
                    }
                    assert(step == MemberStep::Assign(i as int, v@, p3 as nat));
                    Some(MemberRead::Assign(i, v, p3))
                },
                None => {
                    assert(step == MemberStep::Fail);
                    None
                },
            }
        },
        None => {
            if len > body_len - p1 {
                assert(step == MemberStep::Fail);
                return None;
            }
            assert(step == MemberStep::Skip((p1 + len) as nat));
            Some(MemberRead::Skip(p1 + len))
        },
    }
}

/// Read the members of a mutable struct from body position `pos` up to
/// `end`: the values, one per field, and the position reached.
pub fn deserialize_members(data: &[u8], pos: usize, end: u64, fields: &Vec<FieldDescriptor>, le: bool) -> (r:
    Option<(Vec<Option<FieldValue>>, usize)>)
    requires
        data@.len() >= 4,
        pos <= data@.len() - 4,
    ensures
        match de_members(fields@, data@.skip(4), pos as nat, end as nat, le, no_values(fields@.len())) {
            Some((vs, p)) => r matches Some((values, q)) && opt_views(values@) == vs && q == p
                && values@.len() == fields@.len(),
            None => r is None,
        },
{
    let ghost buf = data@.skip(4);
    let ghost empty = no_values(fields@.len());
    let mut values: Vec<Option<FieldValue>> = Vec::new();
    let mut k: usize = 0;
    while k < fields.len()
        invariant
            k <= fields@.len(),
            values@.len() == k,
            forall|j: int| 0 <= j < k ==> values@[j] is None,
        decreases fields@.len() - k,
    {
        values.push(None);
        k += 1;
    }
    assert(opt_views(values@) =~= empty);
    let body_len = data.len() - ENCAPSULATION_LEN;
    let mut p = pos;
    while (p as u64) < end
        invariant
            data@.len() >= 4,
            buf == data@.skip(4),
            empty == no_values(fields@.len()),
            body_len == buf.len(),
            p <= body_len,
            values@.len() == fields@.len(),
            de_members(fields@, buf, pos as nat, end as nat, le, empty) == de_members(
                fields@,
                buf,
                p as nat,
                end as nat,
                le,
                opt_views(values@),
            ),
        decreases body_len - p,
    {
        match read_member_step(data, p, fields, le) {
            None => return None,
            Some(MemberRead::Stop(q)) => return Some((values, q)),
            Some(MemberRead::Skip(q)) => {
                p = q;
            },
            Some(MemberRead::Assign(i, v, q)) => {
                proof {
                    lemma_opt_views_update(values@, i as int, Some(v));
                }
                values.set(i, Some(v));
                p = q;
            },
        }
    }
    Some((values, p))
}

/// Read the body of a mutable struct: members, required-member check and
/// end check.
#[verifier::loop_isolation(false)]
pub fn deserialize_mutable(data: &[u8], fields: &Vec<FieldDescriptor>, le: bool) -> (r: Result<Int2DdsData, DdsError>)
    requires
        data@.len() >= 4,
    ensures
        decode_outcome(mutable_decoding(data@.skip(4), fields@, le), r, "Data too short for XCDR2 header"@),
{
    let (size, start) = match take_u32(data, 0, le) {
        Some(x) => x,
        None => return Err(malformed()),
    };
    let end: u64 = start as u64 + size as u64;
    let (values, p) = match deserialize_members(data, start, end, fields, le) {
        Some(x) => x,
        None => return Err(malformed()),
    };
    let ghost vals = opt_views(values@);
    let mut i: usize = 0;
    while i < fields.len()
        invariant
            i <= fields@.len(),
            values@.len() == fields@.len(),
            vals == opt_views(values@),
            forall|j: int| 0 <= j < i ==> fields@[j].is_optional || !(#[trigger] vals[j] is None),
        decreases fields@.len() - i,
    {
        if !fields[i].is_optional && values[i].is_none() {
            proof {
                lemma_first_missing_is(fields@, vals, i as int);
            }
            return Err(DdsError::Error(missing_field_message(fields[i].name.as_str())));
        }
        i += 1;
    }
    proof {
        if first_missing(fields@, vals) is Some {
            assert(exists|i: int| 0 <= i < fields@.len() && !fields@[i].is_optional && #[trigger] vals[i] is None);
            let w = choose|i: int| 0 <= i < fields@.len() && !fields@[i].is_optional && #[trigger] vals[i] is None;
            assert(fields@[w].is_optional || !(vals[w] is None));
        }
    }
    let body_len = data.len() - ENCAPSULATION_LEN;
    if p as u64 > end {
        return Err(DdsError::Error(owned("Struct exceeds its declared size")));
    }
    if end > body_len as u64 {
        return Err(malformed());
    }
    Ok(Int2DdsData { values })
}

/// Two samples of this type that agree on every key field (the same value,
/// or both absent) get the same instance key from `compute_key`, whatever
/// their other fields hold: they hash the same key bytes, so either both
/// calls meet `compute_key`'s bound on those bytes or neither does. Without
/// key fields every sample gets the nil key.
pub proof fn law_compute_key_depends_only_on_key_fields(support: DynamicTypeSupport, d1: Int2DdsData, d2: Int2DdsData)
    requires
        d1.values@.len() == support.descriptor.fields@.len(),
        d2.values@.len() == support.descriptor.fields@.len(),
        forall|i: int|
            0 <= i < support.descriptor.fields@.len() && #[trigger] support.descriptor.fields@[i].is_key ==> opt_view(
                d1.values@[i],
            ) == opt_view(d2.values@[i]),
    ensures
        spec_compute_key(d1@, support.descriptor.fields@) == spec_compute_key(d2@, support.descriptor.fields@),
        key_bytes(d1@, support.descriptor.fields@, support.descriptor.fields@.len()) == key_bytes(
            d2@,
            support.descriptor.fields@,
            support.descriptor.fields@.len(),
        ),
        !crate::type_descriptor::spec_has_key(support.descriptor.fields@) ==> spec_compute_key(
            d1@,
            support.descriptor.fields@,
        ) == crate::key_hash::nil_key(),
{
    let fields = support.descriptor.fields@;
    assert forall|i: int| 0 <= i < fields.len() && #[trigger] fields[i].is_key implies d1@[i] == d2@[i] by {
        assert(d1@[i] == opt_view(d1.values@[i]));
        assert(d2@[i] == opt_view(d2.values@[i]));
    }
    crate::key_hash::law_key_depends_only_on_key_fields(d1@, d2@, fields);
    if !crate::type_descriptor::spec_has_key(fields) {
        crate::key_hash::law_no_key_fields_nil_key(d1@, fields);
    }
}

} // verus!
