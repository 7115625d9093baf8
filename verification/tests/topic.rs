use int2dds_ffi::c_layout::CName;
use int2dds_ffi::error::INT2DDS_RET_INVALID_ARGUMENT;
use int2dds_ffi::topic::{
    field_descriptor_type, int2dds_default_extensibility, resolve_extensibility, topic_fields, CdrFieldType,
    ScalarTypeIdentifier,
};
use int2dds_ffi::type_descriptor::ExtensibilityKind;

#[test]
fn field_descriptor_type_maps_scalar_codes() {
    let expected = [
        (0u32, ScalarTypeIdentifier::String8),
        (1, ScalarTypeIdentifier::Int32),
        (2, ScalarTypeIdentifier::Uint32),
        (3, ScalarTypeIdentifier::Int16),
        (4, ScalarTypeIdentifier::Uint16),
        (5, ScalarTypeIdentifier::Int64),
        (6, ScalarTypeIdentifier::Uint64),
        (7, ScalarTypeIdentifier::Int8),
        (8, ScalarTypeIdentifier::Uint8),
        (9, ScalarTypeIdentifier::Boolean),
    ];
    for (code, tid) in expected {
        let (_, got) = field_descriptor_type(code).expect("scalar code must map");
        assert_eq!(got, tid, "field_descriptor code {code} maps to wrong TypeIdentifier");
    }
    assert!(field_descriptor_type(10).is_none(), "code 10 must be rejected");
    assert_eq!(field_descriptor_type(0).unwrap().0, CdrFieldType::String);
    assert_eq!(field_descriptor_type(9).unwrap().0, CdrFieldType::Bool);
}

#[test]
fn extensibility_codes() {
    assert_eq!(int2dds_default_extensibility(), 1);
    assert_eq!(resolve_extensibility(-1), Some(ExtensibilityKind::Appendable));
    assert_eq!(resolve_extensibility(0), Some(ExtensibilityKind::Final));
    assert_eq!(resolve_extensibility(2), Some(ExtensibilityKind::Mutable));
    assert_eq!(resolve_extensibility(3), None);
    assert_eq!(resolve_extensibility(-2), None);
}

#[test]
fn topic_fields_read_in_order() {
    let names = vec![CName::Text("id".to_string()), CName::Text("name".to_string())];
    let (fields, has_key) = topic_fields(&names, &vec![1, 0], &vec![true, false], 2).unwrap();
    assert!(has_key);
    assert_eq!(fields.len(), 2);
    assert_eq!(fields[0].0, "id");
    assert_eq!((fields[0].1, fields[0].2, fields[0].3), (CdrFieldType::Int32, ScalarTypeIdentifier::Int32, true));
    assert_eq!((fields[1].1, fields[1].2, fields[1].3), (CdrFieldType::String, ScalarTypeIdentifier::String8, false));
    let (_, has_key) = topic_fields(&names, &vec![9, 8], &vec![false, false], 2).unwrap();
    assert!(!has_key);
    let (none, has_key) = topic_fields(&Vec::new(), &Vec::new(), &Vec::new(), 0).unwrap();
    assert!(none.is_empty() && !has_key);
    assert_eq!(topic_fields(&names, &vec![1, 10], &vec![false, false], 2).unwrap_err(), INT2DDS_RET_INVALID_ARGUMENT);
    let bad = vec![CName::Text("a".to_string()), CName::Null];
    assert_eq!(topic_fields(&bad, &vec![1, 1], &vec![false, false], 2).unwrap_err(), INT2DDS_RET_INVALID_ARGUMENT);
    let bad = vec![CName::NotUtf8];
    assert_eq!(topic_fields(&bad, &vec![1], &vec![true], 1).unwrap_err(), INT2DDS_RET_INVALID_ARGUMENT);
}
