use int2dds_ffi::type_descriptor::{
    element_type_info, name_for_c, ExtensibilityKind, FieldTypeInfo, Int2DdsExtensibilityKind, Int2DdsFieldType, Int2DdsTypeDescriptor,
    Int2DdsXcdrVersion,
};

#[test]
fn test_type_descriptor_creation() {
    let mut desc = Int2DdsTypeDescriptor::new("TestType");
    assert_eq!(desc.typename, "TestType");
    assert!(desc.fields.is_empty());

    desc.add_field("id", FieldTypeInfo::UInt32, true);
    desc.add_field("message", FieldTypeInfo::String { max_length: 256 }, false);

    assert_eq!(desc.fields.len(), 2);
    assert!(desc.has_key());

    let key_fields = desc.key_fields();
    assert_eq!(key_fields.len(), 1);
    assert_eq!(key_fields[0].name, "id");
}

#[test]
fn test_field_lookup() {
    let mut desc = Int2DdsTypeDescriptor::new("TestType");
    desc.add_field("id", FieldTypeInfo::UInt32, true);
    desc.add_field("value", FieldTypeInfo::Float64, false);

    let field = desc.get_field("id");
    assert!(field.is_some());
    assert_eq!(field.unwrap().member_id, 0);

    let field = desc.get_field("value");
    assert!(field.is_some());
    assert_eq!(field.unwrap().member_id, 1);

    assert!(desc.get_field("nonexistent").is_none());
}

#[test]
fn duplicate_names_first_for_get_field_last_for_index() {
    let mut desc = Int2DdsTypeDescriptor::new("T");
    desc.add_field("x", FieldTypeInfo::Int8, false);
    desc.add_field("x", FieldTypeInfo::Int16, false);
    assert_eq!(desc.get_field("x").unwrap().member_id, 0);
    assert_eq!(desc.get_field_index("x"), Some(1));
    assert_eq!(desc.get_field_index("y"), None);
    assert!(!desc.has_key());
}

#[test]
fn new_descriptor_defaults() {
    let desc = Int2DdsTypeDescriptor::new("T");
    assert_eq!(desc.extensibility, ExtensibilityKind::Final);
    assert_eq!(desc.xcdr_version, Int2DdsXcdrVersion::Xcdr1);
    assert_eq!(desc.next_member_id, 0);
    assert_eq!(Int2DdsXcdrVersion::default(), Int2DdsXcdrVersion::Xcdr1);
}

#[test]
fn optional_fields_and_member_ids() {
    let mut desc = Int2DdsTypeDescriptor::new("T");
    desc.add_field("a", FieldTypeInfo::Bool, false);
    desc.add_optional_field("b", FieldTypeInfo::Int32, false);
    desc.add_field_with_options("c", FieldTypeInfo::Int64, true, true);
    assert!(!desc.fields[0].is_optional);
    assert!(desc.fields[1].is_optional);
    assert!(desc.fields[2].is_optional && desc.fields[2].is_key);
    assert_eq!(desc.fields[2].member_id, 2);
    assert_eq!(desc.next_member_id, 3);
}

#[test]
fn field_type_codes_round_trip() {
    for code in 0u32..16 {
        let t = Int2DdsFieldType::from_code(code).unwrap();
        assert_eq!(t.code(), code);
    }
    assert_eq!(Int2DdsFieldType::from_code(16), None);
    assert_eq!(Int2DdsFieldType::Bytes.code(), 15);
}

#[test]
fn base_types_and_extensibility_conversions() {
    let seq = FieldTypeInfo::Sequence { element_type: Box::new(FieldTypeInfo::Int32), max_length: 0 };
    assert_eq!(seq.base_type(), Int2DdsFieldType::Sequence);
    assert_eq!(FieldTypeInfo::Bytes { max_length: 4 }.base_type(), Int2DdsFieldType::Bytes);
    assert_eq!(ExtensibilityKind::from(Int2DdsExtensibilityKind::Mutable), ExtensibilityKind::Mutable);
    assert_eq!(Int2DdsExtensibilityKind::from(ExtensibilityKind::Appendable), Int2DdsExtensibilityKind::Appendable);
    assert_eq!(Int2DdsExtensibilityKind::Mutable.code(), 2);
    assert_eq!(Int2DdsXcdrVersion::Xcdr2.code(), 1);
}

#[test]
fn element_types_for_collections() {
    assert!(matches!(element_type_info(Int2DdsFieldType::String), Some(FieldTypeInfo::String { max_length: 256 })));
    assert!(matches!(element_type_info(Int2DdsFieldType::Float32), Some(FieldTypeInfo::Float32)));
    assert!(element_type_info(Int2DdsFieldType::Struct).is_none());
    assert!(element_type_info(Int2DdsFieldType::Bytes).is_none());
}

#[test]
fn type_name_copied_for_c() {
    let desc = Int2DdsTypeDescriptor::new("Abc");
    let (ret, n, bytes) = name_for_c(&desc, 4);
    assert_eq!(ret, 0);
    assert_eq!(n, 3);
    assert_eq!(bytes.unwrap(), b"Abc\0".to_vec());
    let (ret, n, bytes) = name_for_c(&desc, 3);
    assert_eq!(ret, 1);
    assert_eq!(n, 3);
    assert!(bytes.is_none());
}
