//! C offset-layout descriptors: tables that generated C headers fill with
//! `offsetof`/`sizeof` values to describe a struct member by member, and
//! their validation into a layout specification that the codec binds.
//!
//! The tables arrive as plain values: every name slot says whether it was
//! null, not UTF-8, or text; kind slots are the raw `i32` that C stored; a
//! nested table is present or absent (null).

use vstd::prelude::*;

use crate::error::{Int2DdsRet, INT2DDS_RET_INVALID_ARGUMENT, INT2DDS_RET_NULL_POINTER};
use crate::text::owned;

verus! {

/// Field kinds of a C layout table (codes 0 through 21, in declaration order).
#[derive(Debug, Clone, Copy, PartialEq, Eq, Structural)]
pub enum Int2DdsCFieldKind {
    CFieldNone,
    CFieldBool,
    CFieldInt8,
    CFieldUInt8,
    CFieldInt16,
    CFieldUInt16,
    CFieldInt32,
    CFieldUInt32,
    CFieldInt64,
    CFieldUInt64,
    CFieldFloat32,
    CFieldFloat64,
    CFieldChar8,
    /// C enum member: `size` is its `sizeof`.
    CFieldEnum,
    /// Bitmask member: an unsigned integer of `size` bytes.
    CFieldBitmask,
    /// Inline `char [size]`, NUL-terminated (`size` includes the NUL).
    CFieldString,
    /// Pointer-mode `char *`.
    CFieldStringPtr,
    /// Inline `uint16_t [size]`, NUL-terminated UTF-16.
    CFieldWString,
    /// Nested struct; `nested` holds its table.
    CFieldStruct,
    /// Inline array; `count` is the flattened element count.
    CFieldArray,
    /// Bounded `{ T data[count]; uint32_t length; }`.
    CFieldSequence,
    /// Unbounded `{ T *data; uint32_t length; }`.
    CFieldSequencePtr,
}

/// The C code of a field kind: its position in the declaration.
pub open spec fn c_field_kind_code(k: Int2DdsCFieldKind) -> i32 {
    match k {
        Int2DdsCFieldKind::CFieldNone => 0,
        Int2DdsCFieldKind::CFieldBool => 1,
        Int2DdsCFieldKind::CFieldInt8 => 2,
        Int2DdsCFieldKind::CFieldUInt8 => 3,
        Int2DdsCFieldKind::CFieldInt16 => 4,
        Int2DdsCFieldKind::CFieldUInt16 => 5,
        Int2DdsCFieldKind::CFieldInt32 => 6,
        Int2DdsCFieldKind::CFieldUInt32 => 7,
        Int2DdsCFieldKind::CFieldInt64 => 8,
        Int2DdsCFieldKind::CFieldUInt64 => 9,
        Int2DdsCFieldKind::CFieldFloat32 => 10,
        Int2DdsCFieldKind::CFieldFloat64 => 11,
        Int2DdsCFieldKind::CFieldChar8 => 12,
        Int2DdsCFieldKind::CFieldEnum => 13,
        Int2DdsCFieldKind::CFieldBitmask => 14,
        Int2DdsCFieldKind::CFieldString => 15,
        Int2DdsCFieldKind::CFieldStringPtr => 16,
        Int2DdsCFieldKind::CFieldWString => 17,
        Int2DdsCFieldKind::CFieldStruct => 18,
        Int2DdsCFieldKind::CFieldArray => 19,
        Int2DdsCFieldKind::CFieldSequence => 20,
        Int2DdsCFieldKind::CFieldSequencePtr => 21,
    }
}

impl Int2DdsCFieldKind {
    /// The C code of this kind.
    pub fn code(&self) -> (c: i32)
        ensures
            c == c_field_kind_code(*self),
    {
        match self {
            Int2DdsCFieldKind::CFieldNone => 0,
            Int2DdsCFieldKind::CFieldBool => 1,
            Int2DdsCFieldKind::CFieldInt8 => 2,
            Int2DdsCFieldKind::CFieldUInt8 => 3,
            Int2DdsCFieldKind::CFieldInt16 => 4,
            Int2DdsCFieldKind::CFieldUInt16 => 5,
            Int2DdsCFieldKind::CFieldInt32 => 6,
            Int2DdsCFieldKind::CFieldUInt32 => 7,
            Int2DdsCFieldKind::CFieldInt64 => 8,
            Int2DdsCFieldKind::CFieldUInt64 => 9,
            Int2DdsCFieldKind::CFieldFloat32 => 10,
            Int2DdsCFieldKind::CFieldFloat64 => 11,
            Int2DdsCFieldKind::CFieldChar8 => 12,
            Int2DdsCFieldKind::CFieldEnum => 13,
            Int2DdsCFieldKind::CFieldBitmask => 14,
            Int2DdsCFieldKind::CFieldString => 15,
            Int2DdsCFieldKind::CFieldStringPtr => 16,
            Int2DdsCFieldKind::CFieldWString => 17,
            Int2DdsCFieldKind::CFieldStruct => 18,
            Int2DdsCFieldKind::CFieldArray => 19,
            Int2DdsCFieldKind::CFieldSequence => 20,
            Int2DdsCFieldKind::CFieldSequencePtr => 21,
        }
    }
}

/// The field kind stored as `raw`, if `raw` is a valid code.
pub open spec fn spec_kind_from_raw(raw: i32) -> Option<Int2DdsCFieldKind> {
    if 0 <= raw <= 21 {
        Some(choose|k: Int2DdsCFieldKind| c_field_kind_code(k) == raw)
    } else {
        None
    }
}

/// Decode a kind slot; an out-of-range value is `None` rather than an
/// invalid enum.
pub fn kind_from_raw(raw: i32) -> (r: Option<Int2DdsCFieldKind>)
    ensures
        match r {
            Some(k) => c_field_kind_code(k) == raw,
            None => raw < 0 || raw > 21,
        },
{
    match raw {
        0 => Some(Int2DdsCFieldKind::CFieldNone),
        1 => Some(Int2DdsCFieldKind::CFieldBool),
        2 => Some(Int2DdsCFieldKind::CFieldInt8),
        3 => Some(Int2DdsCFieldKind::CFieldUInt8),
        4 => Some(Int2DdsCFieldKind::CFieldInt16),
        5 => Some(Int2DdsCFieldKind::CFieldUInt16),
        6 => Some(Int2DdsCFieldKind::CFieldInt32),
        7 => Some(Int2DdsCFieldKind::CFieldUInt32),
        8 => Some(Int2DdsCFieldKind::CFieldInt64),
        9 => Some(Int2DdsCFieldKind::CFieldUInt64),
        10 => Some(Int2DdsCFieldKind::CFieldFloat32),
        11 => Some(Int2DdsCFieldKind::CFieldFloat64),
        12 => Some(Int2DdsCFieldKind::CFieldChar8),
        13 => Some(Int2DdsCFieldKind::CFieldEnum),
        14 => Some(Int2DdsCFieldKind::CFieldBitmask),
        15 => Some(Int2DdsCFieldKind::CFieldString),
        16 => Some(Int2DdsCFieldKind::CFieldStringPtr),
        17 => Some(Int2DdsCFieldKind::CFieldWString),
        18 => Some(Int2DdsCFieldKind::CFieldStruct),
        19 => Some(Int2DdsCFieldKind::CFieldArray),
        20 => Some(Int2DdsCFieldKind::CFieldSequence),
        21 => Some(Int2DdsCFieldKind::CFieldSequencePtr),
        _ => None,
    }
}

/// Distinct kinds have distinct codes.
pub proof fn lemma_kind_code_injective(a: Int2DdsCFieldKind, b: Int2DdsCFieldKind)
    ensures
        c_field_kind_code(a) == c_field_kind_code(b) ==> a == b,
{
}

/// How a scalar member is encoded.
#[derive(Debug, Clone, Copy, PartialEq, Eq, Structural)]
pub enum CScalarKind {
    Bool,
    I8,
    U8,
    I16,
    U16,
    I32,
    U32,
    I64,
    U64,
    F32,
    F64,
    Char8,
    /// A C enum; the wire width comes from the type.
    Enum,
    /// An unsigned integer of the member's size (bitmasks).
    Packed,
}

/// The scalar encoding of a member kind, for the scalar kinds.
pub open spec fn spec_scalar_kind(kind: Int2DdsCFieldKind) -> Option<CScalarKind> {
    match kind {
        Int2DdsCFieldKind::CFieldBool => Some(CScalarKind::Bool),
        Int2DdsCFieldKind::CFieldInt8 => Some(CScalarKind::I8),
        Int2DdsCFieldKind::CFieldUInt8 => Some(CScalarKind::U8),
        Int2DdsCFieldKind::CFieldInt16 => Some(CScalarKind::I16),
        Int2DdsCFieldKind::CFieldUInt16 => Some(CScalarKind::U16),
        Int2DdsCFieldKind::CFieldInt32 => Some(CScalarKind::I32),
        Int2DdsCFieldKind::CFieldUInt32 => Some(CScalarKind::U32),
        Int2DdsCFieldKind::CFieldInt64 => Some(CScalarKind::I64),
        Int2DdsCFieldKind::CFieldUInt64 => Some(CScalarKind::U64),
        Int2DdsCFieldKind::CFieldFloat32 => Some(CScalarKind::F32),
        Int2DdsCFieldKind::CFieldFloat64 => Some(CScalarKind::F64),
        Int2DdsCFieldKind::CFieldChar8 => Some(CScalarKind::Char8),
        Int2DdsCFieldKind::CFieldEnum => Some(CScalarKind::Enum),
        Int2DdsCFieldKind::CFieldBitmask => Some(CScalarKind::Packed),
        _ => None,
    }
}

/// The scalar encoding of a member kind, for the scalar kinds.
pub fn scalar_kind(kind: Int2DdsCFieldKind) -> (r: Option<CScalarKind>)
    ensures
        r == spec_scalar_kind(kind),
{
    match kind {
        Int2DdsCFieldKind::CFieldBool => Some(CScalarKind::Bool),
        Int2DdsCFieldKind::CFieldInt8 => Some(CScalarKind::I8),
        Int2DdsCFieldKind::CFieldUInt8 => Some(CScalarKind::U8),
        Int2DdsCFieldKind::CFieldInt16 => Some(CScalarKind::I16),
        Int2DdsCFieldKind::CFieldUInt16 => Some(CScalarKind::U16),
        Int2DdsCFieldKind::CFieldInt32 => Some(CScalarKind::I32),
        Int2DdsCFieldKind::CFieldUInt32 => Some(CScalarKind::U32),
        Int2DdsCFieldKind::CFieldInt64 => Some(CScalarKind::I64),
        Int2DdsCFieldKind::CFieldUInt64 => Some(CScalarKind::U64),
        Int2DdsCFieldKind::CFieldFloat32 => Some(CScalarKind::F32),
        Int2DdsCFieldKind::CFieldFloat64 => Some(CScalarKind::F64),
        Int2DdsCFieldKind::CFieldChar8 => Some(CScalarKind::Char8),
        Int2DdsCFieldKind::CFieldEnum => Some(CScalarKind::Enum),
        Int2DdsCFieldKind::CFieldBitmask => Some(CScalarKind::Packed),
        _ => None,
    }
}

/// What a name slot of a table held.
#[derive(Debug)]
pub enum CName {
    /// A null pointer.
    Null,
    /// A C string that is not UTF-8.
    NotUtf8,
    /// A UTF-8 C string.
    Text(String),
}

/// One member of a C struct, located by `offsetof`/`sizeof`.
#[derive(Debug)]
pub struct Int2DdsCFieldLayout {
    pub name: CName,
    /// Raw kind code as C stored it.
    pub kind: i32,
    pub offset: u32,
    pub length_offset: u32,
    pub size: u32,
    pub count: u32,
    /// Raw element kind code of an array or sequence.
    pub elem_kind: i32,
    pub elem_size: u32,
    /// Table of a struct member or struct element; `None` for a null pointer.
    pub nested: Option<Box<Int2DdsCTypeLayout>>,
}

/// A C struct's offset layout, members in declaration order.
#[derive(Debug)]
pub struct Int2DdsCTypeLayout {
    pub typename: CName,
    pub struct_size: u32,
    pub field_count: u32,
    /// The member array; `None` for a null pointer.
    pub fields: Option<Vec<Int2DdsCFieldLayout>>,
}

/// Deepest nesting of struct tables accepted.
pub const MAX_NESTING: u32 = 32;

/// Most members a table may declare.
pub const MAX_FIELDS: u32 = 0x10000;

/// Validated layout of an array or sequence element.
#[derive(Debug)]
pub enum CElemSpec {
    Struct(Box<CStructSpec>),
    StrInline { capacity: u32 },
    StrPtr,
    WStrInline { capacity: u32 },
    Scalar { kind: CScalarKind, size: u32 },
}

/// Validated layout of a member.
#[derive(Debug)]
pub enum CNodeSpec {
    StrInline { capacity: u32 },
    StrPtr,
    WStrInline { capacity: u32 },
    Struct(Box<CStructSpec>),
    Array { elem: CElemSpec, count: u32 },
    /// A sequence; `bound` is `None` for the unbounded pointer form.
    Sequence { elem: CElemSpec, length_offset: u32, bound: Option<u32> },
    Scalar { kind: CScalarKind, size: u32 },
}

/// Validated member: name, offset and layout.
#[derive(Debug)]
pub struct CFieldSpec {
    pub name: String,
    pub offset: u32,
    pub node: CNodeSpec,
}

/// Validated struct layout.
#[derive(Debug)]
pub struct CStructSpec {
    pub typename: String,
    pub size: u32,
    pub fields: Vec<CFieldSpec>,
}

/// Mathematical element layout.
pub enum SpecCElem {
    Struct(SpecCStruct),
    StrInline(u32),
    StrPtr,
    WStrInline(u32),
    Scalar(CScalarKind, u32),
}

/// Mathematical member layout.
pub enum SpecCNode {
    StrInline(u32),
    StrPtr,
    WStrInline(u32),
    Struct(SpecCStruct),
    Array(SpecCElem, u32),
    Sequence(SpecCElem, u32, Option<u32>),
    Scalar(CScalarKind, u32),
}

/// Mathematical member.
pub struct SpecCField {
    pub name: Seq<char>,
    pub offset: u32,
    pub node: SpecCNode,
}

/// Mathematical struct layout.
pub struct SpecCStruct {
    pub name: Seq<char>,
    pub size: u32,
    pub fields: Seq<SpecCField>,
}

/// The mathematical value of a validated struct layout.
pub open spec fn struct_view(s: CStructSpec) -> SpecCStruct
    decreases s, 0nat,
{
    SpecCStruct { name: s.typename@, size: s.size, fields: fields_view(s.fields@) }
}

/// The mathematical values of validated members.
pub open spec fn fields_view(fs: Seq<CFieldSpec>) -> Seq<SpecCField>
    decreases fs, 1nat,
{
    Seq::new(
        fs.len(),
        |i: int|
            if 0 <= i < fs.len() {
                SpecCField { name: fs[i].name@, offset: fs[i].offset, node: node_view(fs[i].node) }
            } else {
                SpecCField { name: Seq::empty(), offset: 0, node: SpecCNode::StrPtr }
            },
    )
}

/// The mathematical value of a validated member layout.
pub open spec fn node_view(n: CNodeSpec) -> SpecCNode
    decreases n, 0nat,
{
    match n {
        CNodeSpec::StrInline { capacity } => SpecCNode::StrInline(capacity),
        CNodeSpec::StrPtr => SpecCNode::StrPtr,
        CNodeSpec::WStrInline { capacity } => SpecCNode::WStrInline(capacity),
        CNodeSpec::Struct(s) => SpecCNode::Struct(struct_view(*s)),
        CNodeSpec::Array { elem, count } => SpecCNode::Array(elem_view(elem), count),
        CNodeSpec::Sequence { elem, length_offset, bound } => SpecCNode::Sequence(
            elem_view(elem),
            length_offset,
            bound,
        ),
        CNodeSpec::Scalar { kind, size } => SpecCNode::Scalar(kind, size),
    }
}

/// The mathematical value of a validated element layout.
pub open spec fn elem_view(e: CElemSpec) -> SpecCElem
    decreases e, 0nat,
{
    match e {
        CElemSpec::Struct(s) => SpecCElem::Struct(struct_view(*s)),
        CElemSpec::StrInline { capacity } => SpecCElem::StrInline(capacity),
        CElemSpec::StrPtr => SpecCElem::StrPtr,
        CElemSpec::WStrInline { capacity } => SpecCElem::WStrInline(capacity),
        CElemSpec::Scalar { kind, size } => SpecCElem::Scalar(kind, size),
    }
}

/// A name slot read as text: null and non-UTF-8 names are errors.
pub open spec fn spec_read_name(n: CName) -> Result<Seq<char>, Int2DdsRet> {
    match n {
        CName::Null => Err(INT2DDS_RET_NULL_POINTER),
        CName::NotUtf8 => Err(INT2DDS_RET_INVALID_ARGUMENT),
        CName::Text(s) => Ok(s@),
    }
}

/// Every member array holds at least as many members as its table declares.
pub open spec fn layout_wf(layout: Option<Box<Int2DdsCTypeLayout>>) -> bool
    decreases layout, 0nat, 0nat,
{
    match layout {
        None => true,
        Some(l) => match l.fields {
            None => true,
            Some(v) => l.field_count <= MAX_FIELDS ==> v@.len() >= l.field_count && fields_wf(
                v@,
                l.field_count as nat,
            ),
        },
    }
}

/// The first `n` members have well-formed nested tables.
pub open spec fn fields_wf(fields: Seq<Int2DdsCFieldLayout>, n: nat) -> bool
    decreases fields, 1nat, n,
{
    if n == 0 || n > fields.len() {
        true
    } else {
        fields_wf(fields, (n - 1) as nat) && layout_wf(fields[n - 1].nested)
    }
}

/// Validate a table at nesting `depth`.
pub open spec fn spec_parse_struct(layout: Option<Box<Int2DdsCTypeLayout>>, depth: u32) -> Result<
    SpecCStruct,
    Int2DdsRet,
>
    decreases layout, 0nat, 0nat,
{
    match layout {
        None => Err(INT2DDS_RET_NULL_POINTER),
        Some(l) => if depth > MAX_NESTING {
            Err(INT2DDS_RET_INVALID_ARGUMENT)
        } else {
            match spec_read_name(l.typename) {
                Err(e) => Err(e),
                Ok(name) => if l.field_count > MAX_FIELDS {
                    Err(INT2DDS_RET_INVALID_ARGUMENT)
                } else {
                    match l.fields {
                        None => if l.field_count > 0 {
                            Err(INT2DDS_RET_NULL_POINTER)
                        } else {
                            Ok(SpecCStruct { name, size: l.struct_size, fields: Seq::empty() })
                        },
                        Some(v) => match spec_parse_fields(v@, l.field_count as nat, depth) {
                            Ok(fs) => Ok(SpecCStruct { name, size: l.struct_size, fields: fs }),
                            Err(e) => Err(e),
                        },
                    }
                },
            }
        },
    }
}

/// Validate the first `n` members of a table at nesting `depth`.
pub open spec fn spec_parse_fields(fields: Seq<Int2DdsCFieldLayout>, n: nat, depth: u32) -> Result<
    Seq<SpecCField>,
    Int2DdsRet,
>
    decreases fields, 1nat, n,
{
    if n == 0 || n > fields.len() {
        Ok(Seq::empty())
    } else {
        match spec_parse_fields(fields, (n - 1) as nat, depth) {
            Err(e) => Err(e),
            Ok(prefix) => {
                let f = fields[n - 1];
                match spec_read_name(f.name) {
                    Err(e) => Err(e),
                    Ok(name) => match spec_kind_from_raw(f.kind) {
                        None => Err(INT2DDS_RET_INVALID_ARGUMENT),
                        Some(kind) => {
                            let node: Result<SpecCNode, Int2DdsRet> = match kind {
                                Int2DdsCFieldKind::CFieldString => Ok(SpecCNode::StrInline(f.size)),
                                Int2DdsCFieldKind::CFieldStringPtr => Ok(SpecCNode::StrPtr),
                                Int2DdsCFieldKind::CFieldWString => Ok(SpecCNode::WStrInline(f.size)),
                                Int2DdsCFieldKind::CFieldStruct => match spec_parse_struct(
                                    f.nested,
                                    (depth + 1) as u32,
                                ) {
                                    Ok(s) => Ok(SpecCNode::Struct(s)),
                                    Err(e) => Err(e),
                                },
                                Int2DdsCFieldKind::CFieldArray => match spec_parse_elem(
                                    f.elem_kind,
                                    f.elem_size,
                                    f.nested,
                                    depth,
                                ) {
                                    Ok(e) => Ok(SpecCNode::Array(e, f.count)),
                                    Err(e) => Err(e),
                                },
                                Int2DdsCFieldKind::CFieldSequence => if f.count == 0 {
                                    Err(INT2DDS_RET_INVALID_ARGUMENT)
                                } else {
                                    match spec_parse_elem(f.elem_kind, f.elem_size, f.nested, depth) {
                                        Ok(e) => Ok(SpecCNode::Sequence(e, f.length_offset, Some(f.count))),
                                        Err(e) => Err(e),
                                    }
                                },
                                Int2DdsCFieldKind::CFieldSequencePtr => match spec_parse_elem(
                                    f.elem_kind,
                                    f.elem_size,
                                    f.nested,
                                    depth,
                                ) {
                                    Ok(e) => Ok(SpecCNode::Sequence(e, f.length_offset, None)),
                                    Err(e) => Err(e),
                                },
                                other => match spec_scalar_kind(other) {
                                    Some(k) => Ok(SpecCNode::Scalar(k, f.size)),
                                    None => Err(INT2DDS_RET_INVALID_ARGUMENT),
                                },
                            };
                            match node {
                                Ok(nd) => Ok(prefix.push(SpecCField { name, offset: f.offset, node: nd })),
                                Err(e) => Err(e),
                            }
                        },
                    },
                }
            },
        }
    }
}

/// Validate the element of an array or sequence member.
pub open spec fn spec_parse_elem(
    raw: i32,
    elem_size: u32,
    nested: Option<Box<Int2DdsCTypeLayout>>,
    depth: u32,
) -> Result<SpecCElem, Int2DdsRet>
    decreases nested, 1nat, 0nat,
{
    match spec_kind_from_raw(raw) {
        None => Err(INT2DDS_RET_INVALID_ARGUMENT),
        Some(kind) => match kind {
            Int2DdsCFieldKind::CFieldStruct => match spec_parse_struct(nested, (depth + 1) as u32) {
                Ok(s) => Ok(SpecCElem::Struct(s)),
                Err(e) => Err(e),
            },
            Int2DdsCFieldKind::CFieldString => Ok(SpecCElem::StrInline(elem_size)),
            Int2DdsCFieldKind::CFieldStringPtr => Ok(SpecCElem::StrPtr),
            Int2DdsCFieldKind::CFieldWString => Ok(SpecCElem::WStrInline(elem_size)),
            other => match spec_scalar_kind(other) {
                Some(k) => Ok(SpecCElem::Scalar(k, elem_size)),
                None => Err(INT2DDS_RET_INVALID_ARGUMENT),
            },
        },
    }
}

/// Read a name slot.
pub fn read_name(n: &CName) -> (r: Result<String, Int2DdsRet>)
    ensures
        match spec_read_name(*n) {
            Ok(s) => r matches Ok(t) && t@ == s,
            Err(e) => r == Err::<String, Int2DdsRet>(e),
        },
{
    match n {
        CName::Null => Err(INT2DDS_RET_NULL_POINTER),
        CName::NotUtf8 => Err(INT2DDS_RET_INVALID_ARGUMENT),
        CName::Text(s) => Ok(owned(s.as_str())),
    }
}

/// Read a kind slot; an out-of-range code is an invalid argument.
pub fn read_kind(raw: i32) -> (r: Result<Int2DdsCFieldKind, Int2DdsRet>)
    ensures
        match spec_kind_from_raw(raw) {
            Some(k) => r == Ok::<Int2DdsCFieldKind, Int2DdsRet>(k),
            None => r == Err::<Int2DdsCFieldKind, Int2DdsRet>(INT2DDS_RET_INVALID_ARGUMENT),
        },
{
    match kind_from_raw(raw) {
        Some(k) => {
            proof {
                let c = choose|c: Int2DdsCFieldKind| c_field_kind_code(c) == raw;
                assert(c_field_kind_code(k) == raw);
                lemma_kind_code_injective(c, k);
            }
            Ok(k)
        },
        None => Err(INT2DDS_RET_INVALID_ARGUMENT),
    }
}

/// Validate the element of an array or sequence member.
pub fn parse_elem(raw: i32, elem_size: u32, nested: &Option<Box<Int2DdsCTypeLayout>>, depth: u32) -> (r: Result<
    CElemSpec,
    Int2DdsRet,
>)
    requires
        depth <= MAX_NESTING,
        layout_wf(*nested),
    ensures
        match spec_parse_elem(raw, elem_size, *nested, depth) {
            Ok(e) => r matches Ok(x) && elem_view(x) == e,
            Err(e) => r matches Err(x) && x == e,
        },
    decreases *nested, 1nat, 0nat,
{
    let kind = match read_kind(raw) {
        Ok(k) => k,
        Err(e) => return Err(e),
    };
    match kind {
        Int2DdsCFieldKind::CFieldStruct => match parse_struct(nested, depth + 1) {
            Ok(s) => Ok(CElemSpec::Struct(Box::new(s))),
            Err(e) => Err(e),
        },
        Int2DdsCFieldKind::CFieldString => Ok(CElemSpec::StrInline { capacity: elem_size }),
        Int2DdsCFieldKind::CFieldStringPtr => Ok(CElemSpec::StrPtr),
        Int2DdsCFieldKind::CFieldWString => Ok(CElemSpec::WStrInline { capacity: elem_size }),
        other => match scalar_kind(other) {
            Some(k) => Ok(CElemSpec::Scalar { kind: k, size: elem_size }),
            None => Err(INT2DDS_RET_INVALID_ARGUMENT),
        },
    }
}

/// Validate one member at nesting `depth`.
pub fn parse_field(f: &Int2DdsCFieldLayout, depth: u32) -> (r: Result<CFieldSpec, Int2DdsRet>)
    requires
        depth <= MAX_NESTING,
        layout_wf(f.nested),
    ensures
        match spec_parse_fields(seq![*f], 1, depth) {
            Ok(fs) => r matches Ok(x) && fs == seq![
                SpecCField { name: x.name@, offset: x.offset, node: node_view(x.node) },
            ],
            Err(e) => r matches Err(x) && x == e,
        },
    decreases f, 2nat, 0nat,
{
    let ghost sf = seq![*f];
    assert(sf[0] == *f);
    assert(spec_parse_fields(sf, 0, depth) == Ok::<Seq<SpecCField>, Int2DdsRet>(Seq::empty()));
    let name = match read_name(&f.name) {
        Ok(n) => n,
        Err(e) => return Err(e),
    };
    let kind = match read_kind(f.kind) {
        Ok(k) => k,
        Err(e) => return Err(e),
    };
    let node = match kind {
        Int2DdsCFieldKind::CFieldString => CNodeSpec::StrInline { capacity: f.size },
        Int2DdsCFieldKind::CFieldStringPtr => CNodeSpec::StrPtr,
        Int2DdsCFieldKind::CFieldWString => CNodeSpec::WStrInline { capacity: f.size },
        Int2DdsCFieldKind::CFieldStruct => match parse_struct(&f.nested, depth + 1) {
            Ok(s) => CNodeSpec::Struct(Box::new(s)),
            Err(e) => return Err(e),
        },
        Int2DdsCFieldKind::CFieldArray => match parse_elem(f.elem_kind, f.elem_size, &f.nested, depth) {
            Ok(e) => CNodeSpec::Array { elem: e, count: f.count },
            Err(e) => return Err(e),
        },
        Int2DdsCFieldKind::CFieldSequence => {
            if f.count == 0 {
                return Err(INT2DDS_RET_INVALID_ARGUMENT);
            }
            match parse_elem(f.elem_kind, f.elem_size, &f.nested, depth) {
                Ok(e) => CNodeSpec::Sequence { elem: e, length_offset: f.length_offset, bound: Some(f.count) },
                Err(e) => return Err(e),
            }
        },
        Int2DdsCFieldKind::CFieldSequencePtr => match parse_elem(f.elem_kind, f.elem_size, &f.nested, depth) {
            Ok(e) => CNodeSpec::Sequence { elem: e, length_offset: f.length_offset, bound: None },
            Err(e) => return Err(e),
        },
        other => match scalar_kind(other) {
            Some(k) => CNodeSpec::Scalar { kind: k, size: f.size },
            None => return Err(INT2DDS_RET_INVALID_ARGUMENT),
        },
    };
    let x = CFieldSpec { name, offset: f.offset, node };
    assert(Seq::<SpecCField>::empty().push(
        SpecCField { name: x.name@, offset: x.offset, node: node_view(x.node) },
    ) =~= seq![SpecCField { name: x.name@, offset: x.offset, node: node_view(x.node) }]);
    Ok(x)
}

/// Validate a C struct layout table at nesting `depth` into the layout
/// specification the codec binds: a null table or member array is a null
/// pointer error; nesting deeper than `MAX_NESTING`, more than `MAX_FIELDS`
/// members, a bad name, a bad kind code, an empty bounded sequence or a
/// non-member kind are invalid arguments. Members are checked in order and
/// the first failure is reported.
#[verifier::loop_isolation(false)]
pub fn parse_struct(layout: &Option<Box<Int2DdsCTypeLayout>>, depth: u32) -> (r: Result<CStructSpec, Int2DdsRet>)
    requires
        layout_wf(*layout),
    ensures
        match spec_parse_struct(*layout, depth) {
            Ok(s) => r matches Ok(x) && struct_view(x) == s,
            Err(e) => r matches Err(x) && x == e,
        },
    decreases *layout, 0nat, 0nat,
{
    let l = match layout {
        None => return Err(INT2DDS_RET_NULL_POINTER),
        Some(l) => l,
    };
    if depth > MAX_NESTING {
        return Err(INT2DDS_RET_INVALID_ARGUMENT);
    }
    let typename = match read_name(&l.typename) {
        Ok(n) => n,
        Err(e) => return Err(e),
    };
    if l.field_count > MAX_FIELDS {
        return Err(INT2DDS_RET_INVALID_ARGUMENT);
    }
    let v = match &l.fields {
        None => {
            if l.field_count > 0 {
                return Err(INT2DDS_RET_NULL_POINTER);
            }
            let r = CStructSpec { typename, size: l.struct_size, fields: Vec::new() };
            assert(fields_view(r.fields@) =~= Seq::<SpecCField>::empty());
            return Ok(r);
        },
        Some(v) => v,
    };
    let n = l.field_count as usize;
    let mut out: Vec<CFieldSpec> = Vec::new();
    let mut i: usize = 0;
    assert(fields_view(out@) =~= Seq::<SpecCField>::empty());
    while i < n
        invariant
            i <= n,
            n == l.field_count,
            n <= v@.len(),
            depth <= MAX_NESTING,
            fields_wf(v@, n as nat),
            spec_parse_fields(v@, i as nat, depth) == Ok::<Seq<SpecCField>, Int2DdsRet>(fields_view(out@)),
        decreases n - i,
    {
        proof {
            lemma_fields_wf_at(v@, n as nat, i as nat);
            vstd::std_specs::vec::axiom_vec_index_decreases(*v, i as int);
            assert(decreases_to!(*layout => v[i as int]));
        }
        let ghost prefix = fields_view(out@);
        match parse_field(&v[i], depth) {
            Ok(x) => {
                proof {
                    lemma_parse_fields_step(v@, (i + 1) as nat, depth, prefix);
                    let y = SpecCField { name: x.name@, offset: x.offset, node: node_view(x.node) };
                    assert(fields_view(out@.push(x)) =~= prefix.push(y));
                    assert(prefix + seq![y] =~= prefix.push(y));
                }
                out.push(x);
            },
            Err(e) => {
                proof {
                    lemma_parse_fields_step(v@, (i + 1) as nat, depth, prefix);
                    lemma_parse_fields_err(v@, (i + 1) as nat, n as nat, depth);
                }
                return Err(e);
            },
        }
        i += 1;
    }
    Ok(CStructSpec { typename, size: l.struct_size, fields: out })
}

/// Member `k` of a well-formed table has a well-formed nested table.
pub proof fn lemma_fields_wf_at(fields: Seq<Int2DdsCFieldLayout>, n: nat, k: nat)
    requires
        k < n <= fields.len(),
        fields_wf(fields, n),
    ensures
        layout_wf(fields[k as int].nested),
    decreases n,
{
    if k + 1 < n {
        lemma_fields_wf_at(fields, (n - 1) as nat, k);
    }
}

/// Validating `n` members is validating the first `n - 1` and then member
/// `n - 1` on its own.
pub proof fn lemma_parse_fields_step(fields: Seq<Int2DdsCFieldLayout>, n: nat, depth: u32, prefix: Seq<SpecCField>)
    requires
        0 < n <= fields.len(),
        spec_parse_fields(fields, (n - 1) as nat, depth) == Ok::<Seq<SpecCField>, Int2DdsRet>(prefix),
    ensures
        spec_parse_fields(fields, n, depth) == match spec_parse_fields(seq![fields[n - 1]], 1, depth) {
            Ok(one) => Ok::<Seq<SpecCField>, Int2DdsRet>(prefix + one),
            Err(e) => Err(e),
        },
{
    let single = seq![fields[n - 1]];
    assert(single[0] == fields[n - 1]);
    assert(spec_parse_fields(single, 0, depth) == Ok::<Seq<SpecCField>, Int2DdsRet>(Seq::empty()));
    if let Ok(one) = spec_parse_fields(single, 1, depth) {
        assert(one.len() == 1);
        assert(prefix.push(one[0]) =~= prefix + one);
        assert(one =~= Seq::<SpecCField>::empty().push(one[0]));
    }
}

/// Once validating the first `n` members fails, validating more fails the
/// same way.
pub proof fn lemma_parse_fields_err(fields: Seq<Int2DdsCFieldLayout>, n: nat, m: nat, depth: u32)
    requires
        n <= m <= fields.len(),
        spec_parse_fields(fields, n, depth) is Err,
    ensures
        spec_parse_fields(fields, m, depth) == spec_parse_fields(fields, n, depth),
    decreases m - n,
{
    if n < m {
        lemma_parse_fields_err(fields, n, (m - 1) as nat, depth);
    }
}

/// Each scalar member kind is bound as the scalar of its own type, and no
/// two kinds share an encoding: `CFieldFloat64` and only it becomes `F64`,
/// `CFieldFloat32` and only it `F32`, and so on; strings, structs and
/// collections have no scalar encoding.
pub proof fn law_scalar_kind_per_kind(k: Int2DdsCFieldKind)
    ensures
        spec_scalar_kind(k) == Some(CScalarKind::Bool) <==> k == Int2DdsCFieldKind::CFieldBool,
        spec_scalar_kind(k) == Some(CScalarKind::I8) <==> k == Int2DdsCFieldKind::CFieldInt8,
        spec_scalar_kind(k) == Some(CScalarKind::U8) <==> k == Int2DdsCFieldKind::CFieldUInt8,
        spec_scalar_kind(k) == Some(CScalarKind::I16) <==> k == Int2DdsCFieldKind::CFieldInt16,
        spec_scalar_kind(k) == Some(CScalarKind::U16) <==> k == Int2DdsCFieldKind::CFieldUInt16,
        spec_scalar_kind(k) == Some(CScalarKind::I32) <==> k == Int2DdsCFieldKind::CFieldInt32,
        spec_scalar_kind(k) == Some(CScalarKind::U32) <==> k == Int2DdsCFieldKind::CFieldUInt32,
        spec_scalar_kind(k) == Some(CScalarKind::I64) <==> k == Int2DdsCFieldKind::CFieldInt64,
        spec_scalar_kind(k) == Some(CScalarKind::U64) <==> k == Int2DdsCFieldKind::CFieldUInt64,
        spec_scalar_kind(k) == Some(CScalarKind::F32) <==> k == Int2DdsCFieldKind::CFieldFloat32,
        spec_scalar_kind(k) == Some(CScalarKind::F64) <==> k == Int2DdsCFieldKind::CFieldFloat64,
        spec_scalar_kind(k) == Some(CScalarKind::Char8) <==> k == Int2DdsCFieldKind::CFieldChar8,
        spec_scalar_kind(k) == Some(CScalarKind::Enum) <==> k == Int2DdsCFieldKind::CFieldEnum,
        spec_scalar_kind(k) == Some(CScalarKind::Packed) <==> k == Int2DdsCFieldKind::CFieldBitmask,
        spec_scalar_kind(k) is None <==> (k == Int2DdsCFieldKind::CFieldNone || k == Int2DdsCFieldKind::CFieldString
            || k == Int2DdsCFieldKind::CFieldStringPtr || k == Int2DdsCFieldKind::CFieldWString || k
            == Int2DdsCFieldKind::CFieldStruct || k == Int2DdsCFieldKind::CFieldArray || k
            == Int2DdsCFieldKind::CFieldSequence || k == Int2DdsCFieldKind::CFieldSequencePtr),
{
}

/// Validating a table binds every scalar member as the scalar encoding of
/// its kind, with the member's declared size: a `CFieldFloat64` member of
/// size 8 becomes an `F64` scalar of size 8.
pub proof fn law_parse_binds_scalars(fields: Seq<Int2DdsCFieldLayout>, n: nat, depth: u32)
    ensures
        spec_parse_fields(fields, n, depth) matches Ok(fs) ==> {
            &&& fs.len() == (if n > fields.len() { 0 } else { n })
            &&& forall|i: int|
                0 <= i < fs.len() ==> (spec_kind_from_raw(#[trigger] fields[i].kind) matches Some(k) ==> (spec_scalar_kind(k)
                    matches Some(s) ==> fs[i].node == SpecCNode::Scalar(s, fields[i].size)))
        },
    decreases n,
{
    if n > 0 && n <= fields.len() {
        law_parse_binds_scalars(fields, (n - 1) as nat, depth);
    }
}

} // verus!
