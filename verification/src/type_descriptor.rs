//! Runtime type definitions: C applications describe a DDS data type field by
//! field, and the descriptor drives CDR serialization of its samples.

use vstd::prelude::*;

use crate::error::{Int2DdsRet, INT2DDS_RET_ERROR, INT2DDS_RET_OK};
use crate::text::{owned, str_equal};

verus! {

/// Field type enumeration of the C API (codes 0 through 15, in declaration order).
#[derive(Debug, Clone, Copy, PartialEq, Eq, Structural)]
pub enum Int2DdsFieldType {
    Bool,
    Int8,
    UInt8,
    Int16,
    UInt16,
    Int32,
    UInt32,
    Int64,
    UInt64,
    Float32,
    Float64,
    String,
    Sequence,
    Array,
    Struct,
    /// Byte sequence stored in one buffer, for large payloads.
    Bytes,
}

/// Extensibility kind selected through the C API (codes 0, 1, 2).
#[derive(Debug, Clone, Copy, PartialEq, Eq, Structural)]
pub enum Int2DdsExtensibilityKind {
    /// No extensibility: plain encoding.
    Final,
    /// Members may be appended: delimited encoding.
    Appendable,
    /// Full extensibility: every member carries a header.
    Mutable,
}

/// XCDR version used when a descriptor serializes without an explicit format.
#[derive(Debug, Clone, Copy, PartialEq, Eq, Structural)]
pub enum Int2DdsXcdrVersion {
    /// XCDR v1 (classic CDR), the default.
    Xcdr1,
    /// XCDR v2.
    Xcdr2,
}

/// Extensibility of an encoded type, as the codec sees it.
#[derive(Debug, Clone, Copy, PartialEq, Eq, Structural)]
pub enum ExtensibilityKind {
    Final,
    Appendable,
    Mutable,
}

impl Int2DdsFieldType {
    /// The C code of this field type.
    pub fn code(&self) -> (c: u32)
        ensures
            c == field_type_code(*self),
    {
        match self {
            Int2DdsFieldType::Bool => 0,
            Int2DdsFieldType::Int8 => 1,
            Int2DdsFieldType::UInt8 => 2,
            Int2DdsFieldType::Int16 => 3,
            Int2DdsFieldType::UInt16 => 4,
            Int2DdsFieldType::Int32 => 5,
            Int2DdsFieldType::UInt32 => 6,
            Int2DdsFieldType::Int64 => 7,
            Int2DdsFieldType::UInt64 => 8,
            Int2DdsFieldType::Float32 => 9,
            Int2DdsFieldType::Float64 => 10,
            Int2DdsFieldType::String => 11,
            Int2DdsFieldType::Sequence => 12,
            Int2DdsFieldType::Array => 13,
            Int2DdsFieldType::Struct => 14,
            Int2DdsFieldType::Bytes => 15,
        }
    }

    /// The field type with the given C code, if any.
    pub fn from_code(code: u32) -> (r: Option<Int2DdsFieldType>)
        ensures
            match r {
                Some(t) => field_type_code(t) == code,
                None => code > 15,
            },
    {
        match code {
            0 => Some(Int2DdsFieldType::Bool),
            1 => Some(Int2DdsFieldType::Int8),
            2 => Some(Int2DdsFieldType::UInt8),
            3 => Some(Int2DdsFieldType::Int16),
            4 => Some(Int2DdsFieldType::UInt16),
            5 => Some(Int2DdsFieldType::Int32),
            6 => Some(Int2DdsFieldType::UInt32),
            7 => Some(Int2DdsFieldType::Int64),
            8 => Some(Int2DdsFieldType::UInt64),
            9 => Some(Int2DdsFieldType::Float32),
            10 => Some(Int2DdsFieldType::Float64),
            11 => Some(Int2DdsFieldType::String),
            12 => Some(Int2DdsFieldType::Sequence),
            13 => Some(Int2DdsFieldType::Array),
            14 => Some(Int2DdsFieldType::Struct),
            15 => Some(Int2DdsFieldType::Bytes),
            _ => None,
        }
    }
}

/// C code of a field type: its position in the declaration.
pub open spec fn field_type_code(t: Int2DdsFieldType) -> u32 {
    match t {
        Int2DdsFieldType::Bool => 0,
        Int2DdsFieldType::Int8 => 1,
        Int2DdsFieldType::UInt8 => 2,
        Int2DdsFieldType::Int16 => 3,
        Int2DdsFieldType::UInt16 => 4,
        Int2DdsFieldType::Int32 => 5,
        Int2DdsFieldType::UInt32 => 6,
        Int2DdsFieldType::Int64 => 7,
        Int2DdsFieldType::UInt64 => 8,
        Int2DdsFieldType::Float32 => 9,
        Int2DdsFieldType::Float64 => 10,
        Int2DdsFieldType::String => 11,
        Int2DdsFieldType::Sequence => 12,
        Int2DdsFieldType::Array => 13,
        Int2DdsFieldType::Struct => 14,
        Int2DdsFieldType::Bytes => 15,
    }
}

/// Field type codes tell the types apart: two field types with one code are
/// one type, so reading back a written code gives the type back.
pub proof fn law_field_type_codes_distinct(a: Int2DdsFieldType, b: Int2DdsFieldType)
    ensures
        field_type_code(a) == field_type_code(b) ==> a == b,
        field_type_code(a) <= 15,
{
}

impl Int2DdsExtensibilityKind {
    /// The C code: 0 = Final, 1 = Appendable, 2 = Mutable.
    pub fn code(&self) -> (c: i32)
        ensures
            c == match *self {
                Int2DdsExtensibilityKind::Final => 0i32,
                Int2DdsExtensibilityKind::Appendable => 1i32,
                Int2DdsExtensibilityKind::Mutable => 2i32,
            },
    {
        match self {
            Int2DdsExtensibilityKind::Final => 0,
            Int2DdsExtensibilityKind::Appendable => 1,
            Int2DdsExtensibilityKind::Mutable => 2,
        }
    }
}

impl Int2DdsXcdrVersion {
    /// The C code: 0 = XCDR1, 1 = XCDR2.
    pub fn code(&self) -> (c: i32)
        ensures
            c == (if *self == Int2DdsXcdrVersion::Xcdr1 { 0i32 } else { 1i32 }),
    {
        match self {
            Int2DdsXcdrVersion::Xcdr1 => 0,
            Int2DdsXcdrVersion::Xcdr2 => 1,
        }
    }
}

impl Default for Int2DdsXcdrVersion {
    fn default() -> (r: Self)
        ensures
            r == Int2DdsXcdrVersion::Xcdr1,
    {
        Int2DdsXcdrVersion::Xcdr1
    }
}

/// The codec's extensibility for a C extensibility kind (same variant).
pub open spec fn spec_ext_from_c(kind: Int2DdsExtensibilityKind) -> ExtensibilityKind {
    match kind {
        Int2DdsExtensibilityKind::Final => ExtensibilityKind::Final,
        Int2DdsExtensibilityKind::Appendable => ExtensibilityKind::Appendable,
        Int2DdsExtensibilityKind::Mutable => ExtensibilityKind::Mutable,
    }
}

/// The C extensibility kind for a codec extensibility (same variant).
pub open spec fn spec_ext_to_c(kind: ExtensibilityKind) -> Int2DdsExtensibilityKind {
    match kind {
        ExtensibilityKind::Final => Int2DdsExtensibilityKind::Final,
        ExtensibilityKind::Appendable => Int2DdsExtensibilityKind::Appendable,
        ExtensibilityKind::Mutable => Int2DdsExtensibilityKind::Mutable,
    }
}

impl vstd::std_specs::convert::FromSpecImpl<Int2DdsExtensibilityKind> for ExtensibilityKind {
    open spec fn obeys_from_spec() -> bool {
        true
    }

    open spec fn from_spec(kind: Int2DdsExtensibilityKind) -> Self {
        spec_ext_from_c(kind)
    }
}

impl From<Int2DdsExtensibilityKind> for ExtensibilityKind {
    fn from(kind: Int2DdsExtensibilityKind) -> (r: Self) {
        match kind {
            Int2DdsExtensibilityKind::Final => ExtensibilityKind::Final,
            Int2DdsExtensibilityKind::Appendable => ExtensibilityKind::Appendable,
            Int2DdsExtensibilityKind::Mutable => ExtensibilityKind::Mutable,
        }
    }
}

impl vstd::std_specs::convert::FromSpecImpl<ExtensibilityKind> for Int2DdsExtensibilityKind {
    open spec fn obeys_from_spec() -> bool {
        true
    }

    open spec fn from_spec(kind: ExtensibilityKind) -> Self {
        spec_ext_to_c(kind)
    }
}

impl From<ExtensibilityKind> for Int2DdsExtensibilityKind {
    fn from(kind: ExtensibilityKind) -> (r: Self) {
        match kind {
            ExtensibilityKind::Final => Int2DdsExtensibilityKind::Final,
            ExtensibilityKind::Appendable => Int2DdsExtensibilityKind::Appendable,
            ExtensibilityKind::Mutable => Int2DdsExtensibilityKind::Mutable,
        }
    }
}

/// Converting a C extensibility kind to the codec's and back gives it back,
/// and the other way round.
pub proof fn law_extensibility_round_trip(c: Int2DdsExtensibilityKind, k: ExtensibilityKind)
    ensures
        spec_ext_to_c(spec_ext_from_c(c)) == c,
        spec_ext_from_c(spec_ext_to_c(k)) == k,
{
}

/// Full type information of a field.
#[derive(Debug)]
pub enum FieldTypeInfo {
    Bool,
    Int8,
    UInt8,
    Int16,
    UInt16,
    Int32,
    UInt32,
    Int64,
    UInt64,
    Float32,
    Float64,
    String { max_length: u32 },
    Sequence { element_type: Box<FieldTypeInfo>, max_length: u32 },
    Array { element_type: Box<FieldTypeInfo>, length: u32 },
    Struct { descriptor: Box<Int2DdsTypeDescriptor> },
    /// Byte sequence kept in one buffer; encoded as an octet sequence.
    Bytes { max_length: u32 },
}

/// The C field type of a full field type.
pub open spec fn spec_base_type(t: FieldTypeInfo) -> Int2DdsFieldType {
    match t {
        FieldTypeInfo::Bool => Int2DdsFieldType::Bool,
        FieldTypeInfo::Int8 => Int2DdsFieldType::Int8,
        FieldTypeInfo::UInt8 => Int2DdsFieldType::UInt8,
        FieldTypeInfo::Int16 => Int2DdsFieldType::Int16,
        FieldTypeInfo::UInt16 => Int2DdsFieldType::UInt16,
        FieldTypeInfo::Int32 => Int2DdsFieldType::Int32,
        FieldTypeInfo::UInt32 => Int2DdsFieldType::UInt32,
        FieldTypeInfo::Int64 => Int2DdsFieldType::Int64,
        FieldTypeInfo::UInt64 => Int2DdsFieldType::UInt64,
        FieldTypeInfo::Float32 => Int2DdsFieldType::Float32,
        FieldTypeInfo::Float64 => Int2DdsFieldType::Float64,
        FieldTypeInfo::String { .. } => Int2DdsFieldType::String,
        FieldTypeInfo::Sequence { .. } => Int2DdsFieldType::Sequence,
        FieldTypeInfo::Array { .. } => Int2DdsFieldType::Array,
        FieldTypeInfo::Struct { .. } => Int2DdsFieldType::Struct,
        FieldTypeInfo::Bytes { .. } => Int2DdsFieldType::Bytes,
    }
}

impl FieldTypeInfo {
    /// The base field type for the C API.
    pub fn base_type(&self) -> (r: Int2DdsFieldType)
        ensures
            r == spec_base_type(*self),
    {
        match self {
            FieldTypeInfo::Bool => Int2DdsFieldType::Bool,
            FieldTypeInfo::Int8 => Int2DdsFieldType::Int8,
            FieldTypeInfo::UInt8 => Int2DdsFieldType::UInt8,
            FieldTypeInfo::Int16 => Int2DdsFieldType::Int16,
            FieldTypeInfo::UInt16 => Int2DdsFieldType::UInt16,
            FieldTypeInfo::Int32 => Int2DdsFieldType::Int32,
            FieldTypeInfo::UInt32 => Int2DdsFieldType::UInt32,
            FieldTypeInfo::Int64 => Int2DdsFieldType::Int64,
            FieldTypeInfo::UInt64 => Int2DdsFieldType::UInt64,
            FieldTypeInfo::Float32 => Int2DdsFieldType::Float32,
            FieldTypeInfo::Float64 => Int2DdsFieldType::Float64,
            FieldTypeInfo::String { .. } => Int2DdsFieldType::String,
            FieldTypeInfo::Sequence { .. } => Int2DdsFieldType::Sequence,
            FieldTypeInfo::Array { .. } => Int2DdsFieldType::Array,
            FieldTypeInfo::Struct { .. } => Int2DdsFieldType::Struct,
            FieldTypeInfo::Bytes { .. } => Int2DdsFieldType::Bytes,
        }
    }
}

/// The element type that a sequence or array of the given C field type holds:
/// scalars map one to one, a string element gets a bound of 256, and nested
/// collections, structs and byte buffers are refused.
pub open spec fn spec_element_type_info(t: Int2DdsFieldType) -> Option<FieldTypeInfo> {
    match t {
        Int2DdsFieldType::Bool => Some(FieldTypeInfo::Bool),
        Int2DdsFieldType::Int8 => Some(FieldTypeInfo::Int8),
        Int2DdsFieldType::UInt8 => Some(FieldTypeInfo::UInt8),
        Int2DdsFieldType::Int16 => Some(FieldTypeInfo::Int16),
        Int2DdsFieldType::UInt16 => Some(FieldTypeInfo::UInt16),
        Int2DdsFieldType::Int32 => Some(FieldTypeInfo::Int32),
        Int2DdsFieldType::UInt32 => Some(FieldTypeInfo::UInt32),
        Int2DdsFieldType::Int64 => Some(FieldTypeInfo::Int64),
        Int2DdsFieldType::UInt64 => Some(FieldTypeInfo::UInt64),
        Int2DdsFieldType::Float32 => Some(FieldTypeInfo::Float32),
        Int2DdsFieldType::Float64 => Some(FieldTypeInfo::Float64),
        Int2DdsFieldType::String => Some(FieldTypeInfo::String { max_length: 256 }),
        _ => None,
    }
}

/// Element type for `add_sequence` / `add_array`; `None` is an invalid argument.
pub fn element_type_info(t: Int2DdsFieldType) -> (r: Option<FieldTypeInfo>)
    ensures
        r == spec_element_type_info(t),
{
    match t {
        Int2DdsFieldType::Bool => Some(FieldTypeInfo::Bool),
        Int2DdsFieldType::Int8 => Some(FieldTypeInfo::Int8),
        Int2DdsFieldType::UInt8 => Some(FieldTypeInfo::UInt8),
        Int2DdsFieldType::Int16 => Some(FieldTypeInfo::Int16),
        Int2DdsFieldType::UInt16 => Some(FieldTypeInfo::UInt16),
        Int2DdsFieldType::Int32 => Some(FieldTypeInfo::Int32),
        Int2DdsFieldType::UInt32 => Some(FieldTypeInfo::UInt32),
        Int2DdsFieldType::Int64 => Some(FieldTypeInfo::Int64),
        Int2DdsFieldType::UInt64 => Some(FieldTypeInfo::UInt64),
        Int2DdsFieldType::Float32 => Some(FieldTypeInfo::Float32),
        Int2DdsFieldType::Float64 => Some(FieldTypeInfo::Float64),
        Int2DdsFieldType::String => Some(FieldTypeInfo::String { max_length: 256 }),
        _ => None,
    }
}

/// One field of a type.
#[derive(Debug)]
pub struct FieldDescriptor {
    /// Field name.
    pub name: String,
    /// Field type with full type information.
    pub field_type: FieldTypeInfo,
    /// Whether the field is part of the key.
    pub is_key: bool,
    /// Member id, assigned in order of addition.
    pub member_id: u32,
    /// Whether the field may be absent (mutable types).
    pub is_optional: bool,
}

/// A complete runtime type: its name and fields in declaration order.
#[derive(Debug)]
pub struct Int2DdsTypeDescriptor {
    /// Type name (e.g. "HelloWorld").
    pub typename: String,
    /// Fields in order.
    pub fields: Vec<FieldDescriptor>,
    /// Extensibility used by the XCDR2 encoding.
    pub extensibility: ExtensibilityKind,
    /// Member id the next added field receives.
    pub next_member_id: u32,
    /// XCDR version used when no format is requested.
    pub xcdr_version: Int2DdsXcdrVersion,
}

/// Index of the first field named `name`.
pub open spec fn first_field_index(fields: Seq<FieldDescriptor>, name: Seq<char>) -> Option<int> {
    if exists|i: int| 0 <= i < fields.len() && #[trigger] fields[i].name@ == name {
        Some(choose|i: int|
            0 <= i < fields.len() && fields[i].name@ == name && forall|j: int|
                0 <= j < i ==> #[trigger] fields[j].name@ != name)
    } else {
        None
    }
}

/// Index of the last field named `name` (the name-to-index table keeps the
/// latest insertion).
pub open spec fn last_field_index(fields: Seq<FieldDescriptor>, name: Seq<char>) -> Option<int> {
    if exists|i: int| 0 <= i < fields.len() && #[trigger] fields[i].name@ == name {
        Some(choose|i: int|
            0 <= i < fields.len() && fields[i].name@ == name && forall|j: int|
                i < j < fields.len() ==> #[trigger] fields[j].name@ != name)
    } else {
        None
    }
}

/// The key fields, in declaration order.
pub open spec fn key_field_seq(fields: Seq<FieldDescriptor>) -> Seq<FieldDescriptor> {
    fields.filter(|f: FieldDescriptor| f.is_key)
}

/// Whether any field is a key field.
pub open spec fn spec_has_key(fields: Seq<FieldDescriptor>) -> bool {
    exists|i: int| 0 <= i < fields.len() && #[trigger] fields[i].is_key
}

/// Existence of a matching index means the first such index exists and is the least.
proof fn lemma_first_index_exists(fields: Seq<FieldDescriptor>, name: Seq<char>, i: int)
    requires
        0 <= i < fields.len(),
        fields[i].name@ == name,
        forall|j: int| 0 <= j < i ==> #[trigger] fields[j].name@ != name,
    ensures
        first_field_index(fields, name) == Some(i),
{
    let k = choose|k: int|
        0 <= k < fields.len() && fields[k].name@ == name && forall|j: int|
            0 <= j < k ==> #[trigger] fields[j].name@ != name;
    assert(exists|k: int|
        0 <= k < fields.len() && fields[k].name@ == name && forall|j: int|
            0 <= j < k ==> #[trigger] fields[j].name@ != name);
    if k < i {
        assert(fields[k].name@ != name);
    }
    if i < k {
        assert(fields[i].name@ != name);
    }
}

/// The first matching index, when there is one, lies within the fields.
pub proof fn lemma_first_index_bounds(fields: Seq<FieldDescriptor>, name: Seq<char>)
    ensures
        first_field_index(fields, name) matches Some(i) ==> 0 <= i < fields.len() && fields[i].name@ == name,
{
    if exists|i: int| 0 <= i < fields.len() && #[trigger] fields[i].name@ == name {
        let i = choose|i: int| 0 <= i < fields.len() && #[trigger] fields[i].name@ == name;
        let mut k = i;
        // the least matching index exists
        assert(exists|m: int| 0 <= m < fields.len() && fields[m].name@ == name && forall|j: int|
            0 <= j < m ==> #[trigger] fields[j].name@ != name) by {
            lemma_least_match(fields, name, i);
        }
    }
}

proof fn lemma_least_match(fields: Seq<FieldDescriptor>, name: Seq<char>, i: int)
    requires
        0 <= i < fields.len(),
        fields[i].name@ == name,
    ensures
        exists|m: int| 0 <= m < fields.len() && fields[m].name@ == name && forall|j: int|
            0 <= j < m ==> #[trigger] fields[j].name@ != name,
    decreases i,
{
    if exists|j: int| 0 <= j < i && #[trigger] fields[j].name@ == name {
        let j = choose|j: int| 0 <= j < i && #[trigger] fields[j].name@ == name;
        lemma_least_match(fields, name, j);
    } else {
        assert(forall|j: int| 0 <= j < i ==> #[trigger] fields[j].name@ != name);
    }
}

proof fn lemma_last_index_exists(fields: Seq<FieldDescriptor>, name: Seq<char>, i: int)
    requires
        0 <= i < fields.len(),
        fields[i].name@ == name,
        forall|j: int| i < j < fields.len() ==> #[trigger] fields[j].name@ != name,
    ensures
        last_field_index(fields, name) == Some(i),
{
    let k = choose|k: int|
        0 <= k < fields.len() && fields[k].name@ == name && forall|j: int|
            k < j < fields.len() ==> #[trigger] fields[j].name@ != name;
    assert(exists|k: int|
        0 <= k < fields.len() && fields[k].name@ == name && forall|j: int|
            k < j < fields.len() ==> #[trigger] fields[j].name@ != name);
    if k < i {
        assert(fields[i].name@ != name);
    }
    if i < k {
        assert(fields[k].name@ != name);
    }
}

impl Int2DdsTypeDescriptor {
    /// A descriptor with no fields: Final extensibility, XCDR1, member ids from 0.
    pub fn new(typename: &str) -> (r: Self)
        ensures
            r.typename@ == typename@,
            r.fields@.len() == 0,
            r.extensibility == ExtensibilityKind::Final,
            r.next_member_id == 0,
            r.xcdr_version == Int2DdsXcdrVersion::Xcdr1,
    {
        Int2DdsTypeDescriptor {
            typename: owned(typename),
            fields: Vec::new(),
            extensibility: ExtensibilityKind::Final,
            next_member_id: 0,
            xcdr_version: Int2DdsXcdrVersion::Xcdr1,
        }
    }

    /// Append a required field.
    pub fn add_field(&mut self, name: &str, field_type: FieldTypeInfo, is_key: bool)
        requires
            old(self).next_member_id < u32::MAX,
        ensures
            added_field(*old(self), *final(self), name@, field_type, is_key, false),
    {
        self.add_field_with_options(name, field_type, is_key, false);
    }

    /// Append an optional field (meaningful for mutable types).
    pub fn add_optional_field(&mut self, name: &str, field_type: FieldTypeInfo, is_key: bool)
        requires
            old(self).next_member_id < u32::MAX,
        ensures
            added_field(*old(self), *final(self), name@, field_type, is_key, true),
    {
        self.add_field_with_options(name, field_type, is_key, true);
    }

    /// Append a field; it takes the next member id.
    pub fn add_field_with_options(
        &mut self,
        name: &str,
        field_type: FieldTypeInfo,
        is_key: bool,
        is_optional: bool,
    )
        requires
            old(self).next_member_id < u32::MAX,
        ensures
            added_field(*old(self), *final(self), name@, field_type, is_key, is_optional),
    {
        let member_id = self.next_member_id;
        self.next_member_id = self.next_member_id + 1;
        self.fields.push(
            FieldDescriptor { name: owned(name), field_type, is_key, member_id, is_optional },
        );
        assert(self.fields@.take(old(self).fields@.len() as int) =~= old(self).fields@);
    }

    /// The first field with the given name.
    pub fn get_field(&self, name: &str) -> (r: Option<&FieldDescriptor>)
        ensures
            r is None <==> first_field_index(self.fields@, name@) is None,
            r matches Some(f) ==> *f == self.fields@[first_field_index(self.fields@, name@)->0],
    {
        proof {
            lemma_first_index_bounds(self.fields@, name@);
        }
        match self.find_first(name) {
            Some(i) => {
                let f = &self.fields[i];
                proof {
                    let k = first_field_index(self.fields@, name@)->0;
                    assert(first_field_index(self.fields@, name@) is Some);
                    assert(0 <= k < self.fields@.len());
                    assert(k == i as int);
                }
                assert(*f == self.fields@[i as int]);
                Some(f)
            },
            None => None,
        }
    }

    /// Position of the first field with the given name.
    pub fn find_first(&self, name: &str) -> (r: Option<usize>)
        ensures
            r is None <==> first_field_index(self.fields@, name@) is None,
            r matches Some(i) ==> first_field_index(self.fields@, name@) == Some(i as int),
    {
        let mut i: usize = 0;
        while i < self.fields.len()
            invariant
                i <= self.fields@.len(),
                forall|j: int| 0 <= j < i ==> #[trigger] self.fields@[j].name@ != name@,
            decreases self.fields@.len() - i,
        {
            if str_equal(self.fields[i].name.as_str(), name) {
                proof {
                    lemma_first_index_exists(self.fields@, name@, i as int);
                }
                return Some(i);
            }
            i += 1;
        }
        None
    }

    /// Index of a field by name: the latest field added under that name.
    pub fn get_field_index(&self, name: &str) -> (r: Option<usize>)
        ensures
            r is None <==> last_field_index(self.fields@, name@) is None,
            r matches Some(i) ==> last_field_index(self.fields@, name@) == Some(i as int),
    {
        let mut i: usize = self.fields.len();
        while i > 0
            invariant
                i <= self.fields@.len(),
                forall|j: int| i <= j < self.fields@.len() ==> #[trigger] self.fields@[j].name@ != name@,
            decreases i,
        {
            if str_equal(self.fields[i - 1].name.as_str(), name) {
                proof {
                    lemma_last_index_exists(self.fields@, name@, i - 1);
                }
                return Some(i - 1);
            }
            i -= 1;
        }
        None
    }

    /// The key fields, in declaration order.
    pub fn key_fields(&self) -> (r: Vec<&FieldDescriptor>)
        ensures
            r@.len() == key_field_seq(self.fields@).len(),
            forall|k: int| 0 <= k < r@.len() ==> *r@[k] == key_field_seq(self.fields@)[k],
    {
        let mut out: Vec<&FieldDescriptor> = Vec::new();
        let mut i: usize = 0;
        while i < self.fields.len()
            invariant
                i <= self.fields@.len(),
                out@.len() == key_field_seq(self.fields@.take(i as int)).len(),
                forall|k: int| 0 <= k < out@.len() ==> *out@[k] == key_field_seq(self.fields@.take(i as int))[k],
            decreases self.fields@.len() - i,
        {
            proof {
                reveal_with_fuel(Seq::filter, 1);
                assert(self.fields@.take(i + 1).drop_last() =~= self.fields@.take(i as int));
            }
            if self.fields[i].is_key {
                out.push(&self.fields[i]);
            }
            i += 1;
        }
        assert(self.fields@.take(i as int) =~= self.fields@);
        out
    }

    /// Whether the type has any key field.
    pub fn has_key(&self) -> (r: bool)
        ensures
            r == spec_has_key(self.fields@),
    {
        let mut i: usize = 0;
        while i < self.fields.len()
            invariant
                i <= self.fields@.len(),
                forall|j: int| 0 <= j < i ==> !(#[trigger] self.fields@[j]).is_key,
            decreases self.fields@.len() - i,
        {
            if self.fields[i].is_key {
                return true;
            }
            i += 1;
        }
        false
    }
}

/// `after` is `before` with one more field at the end, carrying the next member id.
pub open spec fn added_field(
    before: Int2DdsTypeDescriptor,
    after: Int2DdsTypeDescriptor,
    name: Seq<char>,
    field_type: FieldTypeInfo,
    is_key: bool,
    is_optional: bool,
) -> bool {
    &&& after.fields@.len() == before.fields@.len() + 1
    &&& after.fields@.take(before.fields@.len() as int) == before.fields@
    &&& after.fields@.last().name@ == name
    &&& after.fields@.last().field_type == field_type
    &&& after.fields@.last().is_key == is_key
    &&& after.fields@.last().is_optional == is_optional
    &&& after.fields@.last().member_id == before.next_member_id
    &&& after.next_member_id == before.next_member_id + 1
    &&& after.typename == before.typename
    &&& after.extensibility == before.extensibility
    &&& after.xcdr_version == before.xcdr_version
}

/// Each field's member id is its position, and the next id is the field
/// count.
pub open spec fn ids_follow_order(d: Int2DdsTypeDescriptor) -> bool {
    &&& d.next_member_id == d.fields@.len()
    &&& forall|i: int| 0 <= i < d.fields@.len() ==> #[trigger] d.fields@[i].member_id == i
}

/// Member ids follow declaration order: a new descriptor numbers from zero,
/// and appending a field to a descriptor whose ids follow the order of its
/// fields gives the new field the next position as its id.
pub proof fn law_member_ids_follow_order(
    before: Int2DdsTypeDescriptor,
    after: Int2DdsTypeDescriptor,
    name: Seq<char>,
    field_type: FieldTypeInfo,
    is_key: bool,
    is_optional: bool,
)
    requires
        ids_follow_order(before),
        added_field(before, after, name, field_type, is_key, is_optional),
    ensures
        ids_follow_order(after),
{
    assert forall|i: int| 0 <= i < after.fields@.len() implies #[trigger] after.fields@[i].member_id == i by {
        if i < before.fields@.len() {
            assert(after.fields@[i] == after.fields@.take(before.fields@.len() as int)[i]);
        }
    }
}

/// An empty descriptor numbers its fields from zero.
pub proof fn law_new_descriptor_ids_follow_order(d: Int2DdsTypeDescriptor)
    requires
        d.fields@.len() == 0,
        d.next_member_id == 0,
    ensures
        ids_follow_order(d),
{
}

/// Outcome of copying the type name into a C buffer of `buf_size` bytes:
/// the name's byte length, and the bytes written (name and a NUL) when they fit.
pub fn name_for_c(desc: &Int2DdsTypeDescriptor, buf_size: usize) -> (r: (Int2DdsRet, usize, Option<Vec<u8>>))
    ensures
        r.1 as int == vstd::utf8::encode_utf8(desc.typename@).len(),
        r.1 + 1 > buf_size ==> r.0 == INT2DDS_RET_ERROR && r.2 is None,
        r.1 + 1 <= buf_size ==> r.0 == INT2DDS_RET_OK && (r.2 matches Some(v) && v@
            == vstd::utf8::encode_utf8(desc.typename@).push(0u8)),
{
    let bytes = desc.typename.as_str().as_bytes();
    let n = bytes.len();
    if n >= buf_size {
        return (INT2DDS_RET_ERROR, n, None);
    }
    let mut out: Vec<u8> = Vec::new();
    let mut i: usize = 0;
    while i < n
        invariant
            n == bytes@.len(),
            i <= n,
            out@ == bytes@.take(i as int),
        decreases n - i,
    {
        out.push(bytes[i]);
        i += 1;
        assert(out@ =~= bytes@.take(i as int));
    }
    out.push(0u8);
    assert(bytes@.take(n as int) =~= bytes@);
    (INT2DDS_RET_OK, n, Some(out))
}

} // verus!
