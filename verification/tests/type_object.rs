use int2dds_ffi::dynamic_type_support::DynamicTypeSupport;
use int2dds_ffi::type_descriptor::{ExtensibilityKind, FieldTypeInfo, Int2DdsTypeDescriptor};
use int2dds_ffi::type_object::{field_type_to_type_identifier, TypeIdentifierModel};

#[test]
fn scalar_fields_map_to_primitive_identifiers() {
    assert!(matches!(field_type_to_type_identifier(&FieldTypeInfo::Bool), TypeIdentifierModel::Boolean));
    assert!(matches!(field_type_to_type_identifier(&FieldTypeInfo::UInt16), TypeIdentifierModel::Uint16));
    assert!(matches!(field_type_to_type_identifier(&FieldTypeInfo::Float64), TypeIdentifierModel::Float64));
}

#[test]
fn string_bounds_choose_the_identifier() {
    let unbounded = field_type_to_type_identifier(&FieldTypeInfo::String { max_length: 0 });
    assert!(matches!(unbounded, TypeIdentifierModel::String8));
    let max = field_type_to_type_identifier(&FieldTypeInfo::String { max_length: u32::MAX });
    assert!(matches!(max, TypeIdentifierModel::String8));
    let small = field_type_to_type_identifier(&FieldTypeInfo::String { max_length: 255 });
    assert!(matches!(small, TypeIdentifierModel::String8Small { bound: 255 }));
    let large = field_type_to_type_identifier(&FieldTypeInfo::String { max_length: 256 });
    assert!(matches!(large, TypeIdentifierModel::String8Large { bound: 256 }));
}

#[test]
fn bytes_are_octet_sequences() {
    let small = field_type_to_type_identifier(&FieldTypeInfo::Bytes { max_length: 16 });
    match small {
        TypeIdentifierModel::PlainSequenceSmall { bound, element } => {
            assert_eq!(bound, 16);
            assert!(matches!(*element, TypeIdentifierModel::Byte));
        }
        other => panic!("unexpected {:?}", other),
    }
    let unbounded = field_type_to_type_identifier(&FieldTypeInfo::Bytes { max_length: 0 });
    assert!(matches!(unbounded, TypeIdentifierModel::PlainSequenceLarge { bound: 0, .. }));
}

#[test]
fn sequences_and_arrays_carry_their_element() {
    let seq = FieldTypeInfo::Sequence { element_type: Box::new(FieldTypeInfo::Int32), max_length: 1000 };
    match field_type_to_type_identifier(&seq) {
        TypeIdentifierModel::PlainSequenceLarge { bound, element } => {
            assert_eq!(bound, 1000);
            assert!(matches!(*element, TypeIdentifierModel::Int32));
        }
        other => panic!("unexpected {:?}", other),
    }
    let arr = FieldTypeInfo::Array { element_type: Box::new(FieldTypeInfo::UInt8), length: 4 };
    match field_type_to_type_identifier(&arr) {
        TypeIdentifierModel::PlainArraySmall { bound, element } => {
            assert_eq!(bound, 4);
            assert!(matches!(*element, TypeIdentifierModel::Uint8));
        }
        other => panic!("unexpected {:?}", other),
    }
    let big = FieldTypeInfo::Array { element_type: Box::new(FieldTypeInfo::Int8), length: 300 };
    assert!(matches!(field_type_to_type_identifier(&big), TypeIdentifierModel::PlainArrayLarge { bound: 300, .. }));
}

#[test]
fn nested_struct_is_its_minimal_type() {
    let mut inner = Int2DdsTypeDescriptor::new("Inner");
    inner.add_field("x", FieldTypeInfo::Int32, false);
    let nested = FieldTypeInfo::Struct { descriptor: Box::new(inner) };
    match field_type_to_type_identifier(&nested) {
        TypeIdentifierModel::MinimalStruct(s) => {
            assert!(s.typename.is_none());
            assert_eq!(s.members.len(), 1);
            assert_eq!(s.members[0].name, "x");
            assert!(matches!(s.members[0].type_id, TypeIdentifierModel::Int32));
        }
        other => panic!("unexpected {:?}", other),
    }
}

#[test]
fn struct_types_list_members_in_order() {
    let mut desc = Int2DdsTypeDescriptor::new("Sensor");
    desc.add_field("id", FieldTypeInfo::UInt32, true);
    desc.add_optional_field("label", FieldTypeInfo::String { max_length: 32 }, false);
    let support = DynamicTypeSupport::new(desc);

    let minimal = support.build_minimal_struct_type();
    assert!(minimal.typename.is_none());
    assert_eq!(minimal.extensibility, ExtensibilityKind::Final);
    assert_eq!(minimal.members.len(), 2);
    assert_eq!(minimal.members[0].member_id, 0);
    assert!(minimal.members[0].is_key);
    assert!(!minimal.members[0].is_optional);
    assert_eq!(minimal.members[1].member_id, 1);
    assert_eq!(minimal.members[1].name, "label");
    assert!(minimal.members[1].is_optional);
    assert!(matches!(minimal.members[1].type_id, TypeIdentifierModel::String8Small { bound: 32 }));

    let complete = support.build_complete_struct_type();
    assert_eq!(complete.typename.as_deref(), Some("Sensor"));
    assert_eq!(complete.members.len(), 2);

    let object = support.build_type_object();
    assert_eq!(object.typename.as_deref(), Some("Sensor"));
    assert_eq!(object.members[0].name, "id");
}
