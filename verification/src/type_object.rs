//! XTypes descriptions of runtime-defined types: the type identifier of each
//! field type and the struct type objects of a descriptor.
//!
//! Collection headers are always minimal-equivalence with no element flags,
//! so they are left implicit. A nested struct is identified by its minimal
//! struct type; the core library hashes that type into the identifier that
//! goes on the wire.

use vstd::prelude::*;

use crate::dynamic_type_support::DynamicTypeSupport;
use crate::text::owned;
use crate::type_descriptor::{ExtensibilityKind, FieldDescriptor, FieldTypeInfo};

verus! {

/// XTypes type identifier of a field type.
#[derive(Debug)]
#[allow(inconsistent_fields)]
pub enum TypeIdentifierModel {
    Boolean,
    Byte,
    Int8,
    Uint8,
    Int16,
    Uint16,
    Int32,
    Uint32,
    Int64,
    Uint64,
    Float32,
    Float64,
    /// Unbounded string.
    String8,
    String8Small { bound: u8 },
    String8Large { bound: u32 },
    PlainSequenceSmall { bound: u8, element: Box<TypeIdentifierModel> },
    PlainSequenceLarge { bound: u32, element: Box<TypeIdentifierModel> },
    PlainArraySmall { bound: u8, element: Box<TypeIdentifierModel> },
    PlainArrayLarge { bound: u32, element: Box<TypeIdentifierModel> },
    /// A nested struct, by its minimal struct type.
    MinimalStruct(Box<StructTypeModel>),
}

/// One member of a struct type object.
#[derive(Debug)]
pub struct StructMemberModel {
    pub member_id: u32,
    pub is_optional: bool,
    pub is_key: bool,
    pub type_id: TypeIdentifierModel,
    pub name: String,
}

/// A struct type object: minimal (no type name) or complete (named).
#[derive(Debug)]
pub struct StructTypeModel {
    pub extensibility: ExtensibilityKind,
    pub typename: Option<String>,
    pub members: Vec<StructMemberModel>,
}

/// Mathematical type identifier.
pub enum SpecTypeId {
    Boolean,
    Byte,
    Int8,
    Uint8,
    Int16,
    Uint16,
    Int32,
    Uint32,
    Int64,
    Uint64,
    Float32,
    Float64,
    String8,
    String8Small(u8),
    String8Large(u32),
    PlainSequenceSmall(u8, Box<SpecTypeId>),
    PlainSequenceLarge(u32, Box<SpecTypeId>),
    PlainArraySmall(u8, Box<SpecTypeId>),
    PlainArrayLarge(u32, Box<SpecTypeId>),
    MinimalStruct(SpecStructType),
}

/// Mathematical struct member.
pub struct SpecMember {
    pub member_id: u32,
    pub is_optional: bool,
    pub is_key: bool,
    pub type_id: SpecTypeId,
    pub name: Seq<char>,
}

/// Mathematical struct type object.
pub struct SpecStructType {
    pub extensibility: ExtensibilityKind,
    pub typename: Option<Seq<char>>,
    pub members: Seq<SpecMember>,
}

/// The type identifier of a field type: strings bounded by 1 to 255 are
/// small, other bounds large, 0 and `u32::MAX` unbounded; sequences and byte
/// buffers bounded by 1 to 255 are small, others (unbounded included) large;
/// arrays up to 255 long are small; a struct is its minimal struct type.
pub open spec fn spec_type_id(t: FieldTypeInfo) -> SpecTypeId
    decreases t, 0nat,
{
    match t {
        FieldTypeInfo::Bool => SpecTypeId::Boolean,
        FieldTypeInfo::Int8 => SpecTypeId::Int8,
        FieldTypeInfo::UInt8 => SpecTypeId::Uint8,
        FieldTypeInfo::Int16 => SpecTypeId::Int16,
        FieldTypeInfo::UInt16 => SpecTypeId::Uint16,
        FieldTypeInfo::Int32 => SpecTypeId::Int32,
        FieldTypeInfo::UInt32 => SpecTypeId::Uint32,
        FieldTypeInfo::Int64 => SpecTypeId::Int64,
        FieldTypeInfo::UInt64 => SpecTypeId::Uint64,
        FieldTypeInfo::Float32 => SpecTypeId::Float32,
        FieldTypeInfo::Float64 => SpecTypeId::Float64,
        FieldTypeInfo::String { max_length } => if max_length == 0 || max_length == u32::MAX {
            SpecTypeId::String8
        } else if max_length <= 255 {
            SpecTypeId::String8Small(max_length as u8)
        } else {
            SpecTypeId::String8Large(max_length)
        },
        FieldTypeInfo::Bytes { max_length } => if max_length > 0 && max_length <= 255 {
            SpecTypeId::PlainSequenceSmall(max_length as u8, Box::new(SpecTypeId::Byte))
        } else {
            SpecTypeId::PlainSequenceLarge(max_length, Box::new(SpecTypeId::Byte))
        },
        FieldTypeInfo::Sequence { element_type, max_length } => if max_length > 0 && max_length <= 255 {
            SpecTypeId::PlainSequenceSmall(max_length as u8, Box::new(spec_type_id(*element_type)))
        } else {
            SpecTypeId::PlainSequenceLarge(max_length, Box::new(spec_type_id(*element_type)))
        },
        FieldTypeInfo::Array { element_type, length } => if length <= 255 {
            SpecTypeId::PlainArraySmall(length as u8, Box::new(spec_type_id(*element_type)))
        } else {
            SpecTypeId::PlainArrayLarge(length, Box::new(spec_type_id(*element_type)))
        },
        FieldTypeInfo::Struct { descriptor } => SpecTypeId::MinimalStruct(
            SpecStructType {
                extensibility: descriptor.extensibility,
                typename: None,
                members: spec_members(descriptor.fields@),
            },
        ),
    }
}

/// The members of a struct type object: one per field, in order, with the
/// field's member id, optional and key flags, type identifier and name.
pub open spec fn spec_members(fields: Seq<FieldDescriptor>) -> Seq<SpecMember>
    decreases fields, 1nat,
{
    Seq::new(
        fields.len(),
        |i: int|
            if 0 <= i < fields.len() {
                SpecMember {
                    member_id: fields[i].member_id,
                    is_optional: fields[i].is_optional,
                    is_key: fields[i].is_key,
                    type_id: spec_type_id(fields[i].field_type),
                    name: fields[i].name@,
                }
            } else {
                SpecMember {
                    member_id: 0,
                    is_optional: false,
                    is_key: false,
                    type_id: SpecTypeId::Boolean,
                    name: Seq::empty(),
                }
            },
    )
}

/// The mathematical value of a type identifier.
pub open spec fn type_id_view(t: TypeIdentifierModel) -> SpecTypeId
    decreases t, 0nat,
{
    match t {
        TypeIdentifierModel::Boolean => SpecTypeId::Boolean,
        TypeIdentifierModel::Byte => SpecTypeId::Byte,
        TypeIdentifierModel::Int8 => SpecTypeId::Int8,
        TypeIdentifierModel::Uint8 => SpecTypeId::Uint8,
        TypeIdentifierModel::Int16 => SpecTypeId::Int16,
        TypeIdentifierModel::Uint16 => SpecTypeId::Uint16,
        TypeIdentifierModel::Int32 => SpecTypeId::Int32,
        TypeIdentifierModel::Uint32 => SpecTypeId::Uint32,
        TypeIdentifierModel::Int64 => SpecTypeId::Int64,
        TypeIdentifierModel::Uint64 => SpecTypeId::Uint64,
        TypeIdentifierModel::Float32 => SpecTypeId::Float32,
        TypeIdentifierModel::Float64 => SpecTypeId::Float64,
        TypeIdentifierModel::String8 => SpecTypeId::String8,
        TypeIdentifierModel::String8Small { bound } => SpecTypeId::String8Small(bound),
        TypeIdentifierModel::String8Large { bound } => SpecTypeId::String8Large(bound),
        TypeIdentifierModel::PlainSequenceSmall { bound, element } => SpecTypeId::PlainSequenceSmall(
            bound,
            Box::new(type_id_view(*element)),
        ),
        TypeIdentifierModel::PlainSequenceLarge { bound, element } => SpecTypeId::PlainSequenceLarge(
            bound,
            Box::new(type_id_view(*element)),
        ),
        TypeIdentifierModel::PlainArraySmall { bound, element } => SpecTypeId::PlainArraySmall(
            bound,
            Box::new(type_id_view(*element)),
        ),
        TypeIdentifierModel::PlainArrayLarge { bound, element } => SpecTypeId::PlainArrayLarge(
            bound,
            Box::new(type_id_view(*element)),
        ),
        TypeIdentifierModel::MinimalStruct(s) => SpecTypeId::MinimalStruct(struct_type_view(*s)),
    }
}

/// The mathematical value of a struct type object.
pub open spec fn struct_type_view(s: StructTypeModel) -> SpecStructType
    decreases s, 1nat,
{
    SpecStructType {
        extensibility: s.extensibility,
        typename: match s.typename {
            Some(n) => Some(n@),
            None => None,
        },
        members: members_view(s.members@),
    }
}

/// The mathematical values of struct members.
pub open spec fn members_view(ms: Seq<StructMemberModel>) -> Seq<SpecMember>
    decreases ms, 2nat,
{
    Seq::new(
        ms.len(),
        |i: int|
            if 0 <= i < ms.len() {
                SpecMember {
                    member_id: ms[i].member_id,
                    is_optional: ms[i].is_optional,
                    is_key: ms[i].is_key,
                    type_id: type_id_view(ms[i].type_id),
                    name: ms[i].name@,
                }
            } else {
                SpecMember {
                    member_id: 0,
                    is_optional: false,
                    is_key: false,
                    type_id: SpecTypeId::Boolean,
                    name: Seq::empty(),
                }
            },
    )
}

/// The type identifier of a field type.
pub fn field_type_to_type_identifier(field_type: &FieldTypeInfo) -> (r: TypeIdentifierModel)
    ensures
        type_id_view(r) == spec_type_id(*field_type),
    decreases field_type, 0nat,
{
    match field_type {
        FieldTypeInfo::Bool => TypeIdentifierModel::Boolean,
        FieldTypeInfo::Int8 => TypeIdentifierModel::Int8,
        FieldTypeInfo::UInt8 => TypeIdentifierModel::Uint8,
        FieldTypeInfo::Int16 => TypeIdentifierModel::Int16,
        FieldTypeInfo::UInt16 => TypeIdentifierModel::Uint16,
        FieldTypeInfo::Int32 => TypeIdentifierModel::Int32,
        FieldTypeInfo::UInt32 => TypeIdentifierModel::Uint32,
        FieldTypeInfo::Int64 => TypeIdentifierModel::Int64,
        FieldTypeInfo::UInt64 => TypeIdentifierModel::Uint64,
        FieldTypeInfo::Float32 => TypeIdentifierModel::Float32,
        FieldTypeInfo::Float64 => TypeIdentifierModel::Float64,
        FieldTypeInfo::String { max_length } => {
            if *max_length == 0 || *max_length == u32::MAX {
                TypeIdentifierModel::String8
            } else if *max_length <= 255 {
                TypeIdentifierModel::String8Small { bound: *max_length as u8 }
            } else {
                TypeIdentifierModel::String8Large { bound: *max_length }
            }
        },
        FieldTypeInfo::Bytes { max_length } => {
            assert(type_id_view(TypeIdentifierModel::Byte) == SpecTypeId::Byte);
            if *max_length > 0 && *max_length <= 255 {
                TypeIdentifierModel::PlainSequenceSmall {
                    bound: *max_length as u8,
                    element: Box::new(TypeIdentifierModel::Byte),
                }
            } else {
                TypeIdentifierModel::PlainSequenceLarge {
                    bound: *max_length,
                    element: Box::new(TypeIdentifierModel::Byte),
                }
            }
        },
        FieldTypeInfo::Sequence { element_type, max_length } => {
            let element_id = field_type_to_type_identifier(element_type);
            let ghost element_spec = spec_type_id(**element_type);
            assert(type_id_view(element_id) == element_spec);
            if *max_length > 0 && *max_length <= 255 {
                let r = TypeIdentifierModel::PlainSequenceSmall { bound: *max_length as u8, element: Box::new(element_id) };
                assert(type_id_view(r) == SpecTypeId::PlainSequenceSmall(*max_length as u8, Box::new(element_spec)));
                r
            } else {
                let r = TypeIdentifierModel::PlainSequenceLarge { bound: *max_length, element: Box::new(element_id) };
                assert(type_id_view(r) == SpecTypeId::PlainSequenceLarge(*max_length, Box::new(element_spec)));
                r
            }
        },
        FieldTypeInfo::Array { element_type, length } => {
            let element_id = field_type_to_type_identifier(element_type);
            let ghost element_spec = spec_type_id(**element_type);
            assert(type_id_view(element_id) == element_spec);
            if *length <= 255 {
                let r = TypeIdentifierModel::PlainArraySmall { bound: *length as u8, element: Box::new(element_id) };
                assert(type_id_view(r) == SpecTypeId::PlainArraySmall(*length as u8, Box::new(element_spec)));
                r
            } else {
                let r = TypeIdentifierModel::PlainArrayLarge { bound: *length, element: Box::new(element_id) };
                assert(type_id_view(r) == SpecTypeId::PlainArrayLarge(*length, Box::new(element_spec)));
                r
            }
        },
        FieldTypeInfo::Struct { descriptor } => {
            let members = struct_members(&descriptor.fields);
            let s = StructTypeModel { extensibility: descriptor.extensibility, typename: None, members };
            assert(struct_type_view(s).members == spec_members(descriptor.fields@));
            assert(struct_type_view(s) == SpecStructType {
                extensibility: descriptor.extensibility,
                typename: None,
                members: spec_members(descriptor.fields@),
            });
            TypeIdentifierModel::MinimalStruct(Box::new(s))
        },
    }
}

/// The members of a struct type object for the given fields.
pub fn struct_members(fields: &Vec<FieldDescriptor>) -> (r: Vec<StructMemberModel>)
    ensures
        members_view(r@) == spec_members(fields@),
    decreases *fields, 1nat,
{
    let mut out: Vec<StructMemberModel> = Vec::new();
    let mut i: usize = 0;
    while i < fields.len()
        invariant
            i <= fields@.len(),
            out@.len() == i,
            forall|k: int| 0 <= k < i ==> #[trigger] members_view(out@)[k] == spec_members(fields@)[k],
        decreases fields@.len() - i,
    {
        proof {
            vstd::std_specs::vec::axiom_vec_index_decreases(*fields, i as int);
        }
        let f = &fields[i];
        let type_id = field_type_to_type_identifier(&f.field_type);
        let m = StructMemberModel {
            member_id: f.member_id,
            is_optional: f.is_optional,
            is_key: f.is_key,
            type_id,
            name: owned(f.name.as_str()),
        };
        let ghost before = out@;
        out.push(m);
        proof {
            assert forall|k: int| 0 <= k < i + 1 implies #[trigger] members_view(out@)[k] == spec_members(
                fields@,
            )[k] by {
                if k < i {
                    assert(out@[k] == before[k]);
                    assert(members_view(before)[k] == spec_members(fields@)[k]);
                }
            }
        }
        i += 1;
    }
    assert(members_view(out@) =~= spec_members(fields@));
    out
}

impl DynamicTypeSupport {
    /// The minimal struct type of this type: its extensibility and members.
    pub fn build_minimal_struct_type(&self) -> (r: StructTypeModel)
        ensures
            struct_type_view(r) == (SpecStructType {
                extensibility: self.descriptor.extensibility,
                typename: None,
                members: spec_members(self.descriptor.fields@),
            }),
    {
        StructTypeModel {
            extensibility: self.descriptor.extensibility,
            typename: None,
            members: struct_members(&self.descriptor.fields),
        }
    }

    /// The complete struct type of this type: the minimal type with the
    /// type name.
    pub fn build_complete_struct_type(&self) -> (r: StructTypeModel)
        ensures
            struct_type_view(r) == (SpecStructType {
                extensibility: self.descriptor.extensibility,
                typename: Some(self.descriptor.typename@),
                members: spec_members(self.descriptor.fields@),
            }),
    {
        StructTypeModel {
            extensibility: self.descriptor.extensibility,
            typename: Some(owned(self.descriptor.typename.as_str())),
            members: struct_members(&self.descriptor.fields),
        }
    }

    /// The type object announced for this type: its complete struct type.
    pub fn build_type_object(&self) -> (r: StructTypeModel)
        ensures
            struct_type_view(r) == (SpecStructType {
                extensibility: self.descriptor.extensibility,
                typename: Some(self.descriptor.typename@),
                members: spec_members(self.descriptor.fields@),
            }),
    {
        self.build_complete_struct_type()
    }
}

/// Each primitive field type is announced as the type identifier of the
/// same primitive, and only it: `Int64` and only `Int64` becomes the 64-bit
/// signed identifier, `UInt64` the 64-bit unsigned one, and so on; a string
/// becomes a string identifier and a byte buffer an octet sequence.
pub proof fn law_primitive_type_identifiers(t: FieldTypeInfo)
    ensures
        t is Bool <==> spec_type_id(t) is Boolean,
        t is Int8 <==> spec_type_id(t) is Int8,
        t is UInt8 <==> spec_type_id(t) is Uint8,
        t is Int16 <==> spec_type_id(t) is Int16,
        t is UInt16 <==> spec_type_id(t) is Uint16,
        t is Int32 <==> spec_type_id(t) is Int32,
        t is UInt32 <==> spec_type_id(t) is Uint32,
        t is Int64 <==> spec_type_id(t) is Int64,
        t is UInt64 <==> spec_type_id(t) is Uint64,
        t is Float32 <==> spec_type_id(t) is Float32,
        t is Float64 <==> spec_type_id(t) is Float64,
        t is String <==> (spec_type_id(t) is String8 || spec_type_id(t) is String8Small
            || spec_type_id(t) is String8Large),
        t is Bytes ==> (spec_type_id(t) matches SpecTypeId::PlainSequenceSmall(_, e) && *e == SpecTypeId::Byte)
            || (spec_type_id(t) matches SpecTypeId::PlainSequenceLarge(_, e) && *e == SpecTypeId::Byte),
{
}

/// An identifier stands for the primitive it names: the model of a
/// primitive identifier has the value of the same primitive, and only it.
pub proof fn law_type_identifier_views(m: TypeIdentifierModel)
    ensures
        m is Boolean <==> type_id_view(m) is Boolean,
        m is Byte <==> type_id_view(m) is Byte,
        m is Int8 <==> type_id_view(m) is Int8,
        m is Uint8 <==> type_id_view(m) is Uint8,
        m is Int16 <==> type_id_view(m) is Int16,
        m is Uint16 <==> type_id_view(m) is Uint16,
        m is Int32 <==> type_id_view(m) is Int32,
        m is Uint32 <==> type_id_view(m) is Uint32,
        m is Int64 <==> type_id_view(m) is Int64,
        m is Uint64 <==> type_id_view(m) is Uint64,
        m is Float32 <==> type_id_view(m) is Float32,
        m is Float64 <==> type_id_view(m) is Float64,
        m is String8 <==> type_id_view(m) is String8,
{
}

/// A struct type object has one member per field, in field order, each with
/// the field's member id, optional and key flags, name, and the type
/// identifier of the field's type.
pub proof fn law_members_follow_fields(fields: Seq<FieldDescriptor>)
    ensures
        spec_members(fields).len() == fields.len(),
        forall|i: int|
            0 <= i < fields.len() ==> {
                &&& (#[trigger] spec_members(fields)[i]).member_id == fields[i].member_id
                &&& spec_members(fields)[i].is_optional == fields[i].is_optional
                &&& spec_members(fields)[i].is_key == fields[i].is_key
                &&& spec_members(fields)[i].name == fields[i].name@
                &&& spec_members(fields)[i].type_id == spec_type_id(fields[i].field_type)
            },
{
}

} // verus!
