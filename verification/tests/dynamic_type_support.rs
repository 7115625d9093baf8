use int2dds_ffi::data::{FieldValue, Int2DdsData};
use int2dds_ffi::dynamic_type_support::{DynamicTypeSupport, Parameter, WireFormat};
use int2dds_ffi::error::DdsError;
use int2dds_ffi::type_descriptor::{ExtensibilityKind, FieldTypeInfo, Int2DdsTypeDescriptor, Int2DdsXcdrVersion};

fn create_test_descriptor() -> Int2DdsTypeDescriptor {
    let mut desc = Int2DdsTypeDescriptor::new("TestType");
    desc.add_field("id", FieldTypeInfo::UInt32, true);
    desc.add_field("message", FieldTypeInfo::String { max_length: 256 }, false);
    desc.add_field("value", FieldTypeInfo::Float64, false);
    desc
}

fn sample(desc: &Int2DdsTypeDescriptor, id: u32, msg: &str, value: f64) -> Int2DdsData {
    let mut data = Int2DdsData::new(desc);
    data.set_value(desc, "id", FieldValue::UInt32(id)).unwrap();
    data.set_value(desc, "message", FieldValue::String(msg.to_string())).unwrap();
    data.set_value(desc, "value", FieldValue::Float64(value.to_bits())).unwrap();
    data
}

fn error_message(e: DdsError) -> String {
    match e {
        DdsError::Error(m) => m,
        other => panic!("unexpected error {:?}", other),
    }
}

#[test]
fn test_serialize_deserialize_cdr() {
    let desc = create_test_descriptor();
    let data = sample(&desc, 123, "hello", 3.14);
    let support = DynamicTypeSupport::new(desc);

    let serialized = support.serialize_cdr(&data).unwrap();
    assert!(!serialized.is_empty());

    let deserialized = support.deserialize_cdr(&serialized).unwrap();

    assert!(matches!(deserialized.get_value(&support.descriptor, "id"), Some(FieldValue::UInt32(123))));
    assert!(
        matches!(deserialized.get_value(&support.descriptor, "message"), Some(FieldValue::String(s)) if s == "hello")
    );
}

#[test]
fn test_serialize_deserialize_xcdr2() {
    let desc = create_test_descriptor();
    let data = sample(&desc, 456, "world", 2.71);
    let support = DynamicTypeSupport::new(desc);

    let serialized = support.serialize_xcdr2(&data).unwrap();
    assert!(!serialized.is_empty());

    let deserialized = support.deserialize_xcdr2(&serialized).unwrap();

    assert!(matches!(deserialized.get_value(&support.descriptor, "id"), Some(FieldValue::UInt32(456))));
    assert!(
        matches!(deserialized.get_value(&support.descriptor, "message"), Some(FieldValue::String(s)) if s == "world")
    );
}

#[test]
fn test_key_serialization() {
    let desc = create_test_descriptor();
    let data = sample(&desc, 789, "test", 1.0);
    let support = DynamicTypeSupport::new(desc);

    let key_bytes = support.serialize_key_fields(&data).unwrap();
    assert!(!key_bytes.is_empty());
    assert_eq!(key_bytes, vec![0, 1, 0, 0, 0x15, 0x03, 0, 0]);
}

#[test]
fn test_compute_key() {
    let desc = create_test_descriptor();
    let data = sample(&desc, 100, "msg", 0.0);
    let support = DynamicTypeSupport::new(desc);

    let handle = support.compute_key(&data);
    assert_ne!(handle, [0u8; 16]);
    let mut expected = [0u8; 16];
    expected[0] = 100;
    assert_eq!(handle, expected);
}

#[test]
fn cdr_bytes_are_exact() {
    let desc = create_test_descriptor();
    let data = sample(&desc, 123, "hello", 3.14);
    let support = DynamicTypeSupport::new(desc);
    let bytes = support.serialize_cdr(&data).unwrap();
    let mut expected = vec![0, 1, 0, 0, 123, 0, 0, 0, 6, 0, 0, 0, b'h', b'e', b'l', b'l', b'o', 0, 0, 0];
    expected.extend_from_slice(&3.14f64.to_bits().to_le_bytes());
    assert_eq!(bytes, expected);
    assert_eq!(support.estimate_serialized_size(&data), 4 + 7 + 13 + 15);
}

#[test]
fn xcdr2_final_aligns_doubles_to_four() {
    let mut desc = Int2DdsTypeDescriptor::new("T");
    desc.add_field("a", FieldTypeInfo::UInt8, false);
    desc.add_field("b", FieldTypeInfo::Float64, false);
    let mut data = Int2DdsData::new(&desc);
    data.set_value(&desc, "a", FieldValue::UInt8(7)).unwrap();
    data.set_value(&desc, "b", FieldValue::Float64(1.5f64.to_bits())).unwrap();
    let support = DynamicTypeSupport::new(desc);
    let x1 = support.serialize_cdr(&data).unwrap();
    let x2 = support.serialize_xcdr2(&data).unwrap();
    assert_eq!(x1.len(), 4 + 16);
    assert_eq!(x2.len(), 4 + 12);
    assert_eq!(&x2[0..4], &[0, 7, 0, 0]);
    let back = support.deserialize_xcdr2(&x2).unwrap();
    assert!(matches!(back.get_value_by_index(1), Some(FieldValue::Float64(b)) if *b == 1.5f64.to_bits()));
}

#[test]
fn appendable_round_trip_with_dheader() {
    let mut desc = create_test_descriptor();
    desc.extensibility = ExtensibilityKind::Appendable;
    let data = sample(&desc, 42, "world", 2.5);
    let support = DynamicTypeSupport::new(desc);
    let bytes = support.serialize_xcdr2(&data).unwrap();
    assert_eq!(&bytes[0..4], &[0, 9, 0, 0]);
    assert_eq!(&bytes[4..8], &[24, 0, 0, 0]);
    assert_eq!(bytes.len(), 4 + 4 + 24);
    let back = support.deserialize_xcdr2(&bytes).unwrap();
    assert!(matches!(back.get_value(&support.descriptor, "id"), Some(FieldValue::UInt32(42))));
    assert!(matches!(back.get_value(&support.descriptor, "value"), Some(FieldValue::Float64(b)) if *b == 2.5f64.to_bits()));
}

#[test]
fn mutable_round_trip_with_member_headers() {
    let mut desc = Int2DdsTypeDescriptor::new("M");
    desc.extensibility = ExtensibilityKind::Mutable;
    desc.add_field("id", FieldTypeInfo::UInt32, true);
    desc.add_optional_field("note", FieldTypeInfo::String { max_length: 0 }, false);
    desc.add_field("value", FieldTypeInfo::Float64, false);
    let mut data = Int2DdsData::new(&desc);
    data.set_value(&desc, "id", FieldValue::UInt32(99)).unwrap();
    data.set_value(&desc, "value", FieldValue::Float64(0.5f64.to_bits())).unwrap();
    let support = DynamicTypeSupport::new(desc);
    let bytes = support.serialize_xcdr2(&data).unwrap();
    // header, DHEADER, id member (header, 4 bytes), value member (header, 8 bytes)
    assert_eq!(&bytes[0..4], &[0, 11, 0, 0]);
    assert_eq!(&bytes[4..8], &[20, 0, 0, 0]);
    assert_eq!(&bytes[8..12], &[4, 0, 0, 0]);
    assert_eq!(&bytes[16..20], &[8, 0, 2, 0]);
    let back = support.deserialize_xcdr2(&bytes).unwrap();
    assert!(matches!(back.get_value(&support.descriptor, "id"), Some(FieldValue::UInt32(99))));
    assert!(back.get_value(&support.descriptor, "note").is_none());
    assert!(matches!(back.get_value(&support.descriptor, "value"), Some(FieldValue::Float64(b)) if *b == 0.5f64.to_bits()));
}

#[test]
fn mutable_reader_skips_unknown_members_and_reports_missing() {
    let mut desc = Int2DdsTypeDescriptor::new("M");
    desc.extensibility = ExtensibilityKind::Mutable;
    desc.add_field("id", FieldTypeInfo::UInt32, false);
    let support = DynamicTypeSupport::new(desc);
    // unknown member 5 of 4 bytes, then member 0 = 7
    let bytes = vec![0, 11, 0, 0, 16, 0, 0, 0, 4, 0, 5, 0, 1, 2, 3, 4, 4, 0, 0, 0, 7, 0, 0, 0];
    let back = support.deserialize_xcdr2(&bytes).unwrap();
    assert!(matches!(back.get_value_by_index(0), Some(FieldValue::UInt32(7))));
    // only the unknown member: the required field is missing
    let bytes = vec![0, 11, 0, 0, 8, 0, 0, 0, 4, 0, 5, 0, 1, 2, 3, 4];
    let err = support.deserialize_xcdr2(&bytes).unwrap_err();
    assert_eq!(error_message(err), "Missing required field: id");
}

#[test]
fn serialization_errors() {
    let desc = create_test_descriptor();
    let mut data = Int2DdsData::new(&desc);
    data.set_value(&desc, "id", FieldValue::UInt32(1)).unwrap();
    let support = DynamicTypeSupport::new(desc);
    let err = support.serialize_cdr(&data).unwrap_err();
    assert_eq!(error_message(err), "Missing required field: message");

    let mut data = Int2DdsData::new(&support.descriptor);
    data.set_value(&support.descriptor, "id", FieldValue::Int8(1)).unwrap();
    data.set_value(&support.descriptor, "message", FieldValue::String("x".to_string())).unwrap();
    data.set_value(&support.descriptor, "value", FieldValue::Float64(0)).unwrap();
    let err = support.serialize_cdr(&data).unwrap_err();
    assert_eq!(error_message(err), "Type mismatch during serialization");

    let err = data.set_value(&support.descriptor, "nope", FieldValue::Bool(true)).unwrap_err();
    assert_eq!(error_message(err), "Field not found: nope");
}

#[test]
fn deserialization_errors() {
    let support = DynamicTypeSupport::new(create_test_descriptor());
    assert_eq!(error_message(support.deserialize_cdr(&[0, 1]).unwrap_err()), "Data too short for CDR header");
    assert_eq!(error_message(support.deserialize_xcdr2(&[0, 7, 0]).unwrap_err()), "Data too short for XCDR2 header");
    assert_eq!(error_message(support.deserialize_cdr(&[0, 1, 0, 0, 1]).unwrap_err()), "Malformed serialized data");
    assert_eq!(
        error_message(support.deserialize(&[1], None).unwrap_err()),
        "Data too short for encoding detection"
    );

    let mut desc = Int2DdsTypeDescriptor::new("A");
    desc.extensibility = ExtensibilityKind::Appendable;
    desc.add_field("x", FieldTypeInfo::UInt32, false);
    let support = DynamicTypeSupport::new(desc);
    // DHEADER declares 2 bytes but the field takes 4
    let bytes = vec![0, 9, 0, 0, 2, 0, 0, 0, 1, 0, 0, 0];
    assert_eq!(error_message(support.deserialize_xcdr2(&bytes).unwrap_err()), "Struct exceeds its declared size");
    // DHEADER declares more than the data holds
    let bytes = vec![0, 9, 0, 0, 9, 0, 0, 0, 1, 0, 0, 0];
    assert_eq!(error_message(support.deserialize_xcdr2(&bytes).unwrap_err()), "Malformed serialized data");
}

#[test]
fn big_endian_input_is_read() {
    let mut desc = Int2DdsTypeDescriptor::new("B");
    desc.add_field("x", FieldTypeInfo::UInt32, false);
    desc.add_field("y", FieldTypeInfo::Int16, false);
    let support = DynamicTypeSupport::new(desc);
    let bytes = vec![0, 0, 0, 0, 0, 0, 1, 2, 0xFF, 0xFE];
    let back = support.deserialize_cdr(&bytes).unwrap();
    assert!(matches!(back.get_value_by_index(0), Some(FieldValue::UInt32(0x0102))));
    assert!(matches!(back.get_value_by_index(1), Some(FieldValue::Int16(-2))));
}

#[test]
fn format_selection_and_detection() {
    let mut desc = create_test_descriptor();
    desc.xcdr_version = Int2DdsXcdrVersion::Xcdr2;
    let data = sample(&desc, 5, "m", 1.0);
    let support = DynamicTypeSupport::new(desc);
    let default = support.serialize(&data, None).unwrap();
    assert_eq!(&default[0..2], &[0, 7]);
    let cdr = support.serialize(&data, Some(WireFormat::Cdr)).unwrap();
    assert_eq!(&cdr[0..2], &[0, 1]);
    let back = support.deserialize(&default, None).unwrap();
    assert!(matches!(back.get_value_by_index(0), Some(FieldValue::UInt32(5))));
    let back = support.auto_deserialize(&cdr).unwrap();
    assert!(matches!(back.get_value_by_index(0), Some(FieldValue::UInt32(5))));
}

#[test]
fn sequences_arrays_structs_and_bytes() {
    let mut inner = Int2DdsTypeDescriptor::new("Inner");
    inner.add_field("x", FieldTypeInfo::Int16, false);
    let mut desc = Int2DdsTypeDescriptor::new("Outer");
    desc.add_field("nums", FieldTypeInfo::Sequence { element_type: Box::new(FieldTypeInfo::Int32), max_length: 0 }, false);
    desc.add_field("tags", FieldTypeInfo::Sequence { element_type: Box::new(FieldTypeInfo::String { max_length: 0 }), max_length: 0 }, false);
    desc.add_field("raw", FieldTypeInfo::Sequence { element_type: Box::new(FieldTypeInfo::UInt8), max_length: 0 }, false);
    desc.add_field("arr", FieldTypeInfo::Array { element_type: Box::new(FieldTypeInfo::UInt16), length: 2 }, false);
    desc.add_field("blob", FieldTypeInfo::Bytes { max_length: 0 }, false);
    desc.add_field("inner", FieldTypeInfo::Struct { descriptor: Box::new(inner) }, false);
    let mut data = Int2DdsData::new(&desc);
    data.set_value(&desc, "nums", FieldValue::Sequence(vec![FieldValue::Int32(-1), FieldValue::Int32(2)])).unwrap();
    data.set_value(&desc, "tags", FieldValue::Sequence(vec![FieldValue::String("a".to_string())])).unwrap();
    data.set_value(&desc, "raw", FieldValue::Bytes(vec![9, 8, 7])).unwrap();
    data.set_value(&desc, "arr", FieldValue::Array(vec![FieldValue::UInt16(1), FieldValue::UInt16(2)])).unwrap();
    data.set_value(&desc, "blob", FieldValue::Bytes(vec![1])).unwrap();
    let nested = Int2DdsData { values: vec![Some(FieldValue::Int16(-5))] };
    data.set_value(&desc, "inner", FieldValue::Struct(Box::new(nested))).unwrap();
    let support = DynamicTypeSupport::new(desc);
    let bytes = support.serialize_cdr(&data).unwrap();
    let back = support.deserialize_cdr(&bytes).unwrap();
    match back.get_value_by_index(0) {
        Some(FieldValue::Sequence(items)) => {
            assert!(matches!(items[0], FieldValue::Int32(-1)));
            assert!(matches!(items[1], FieldValue::Int32(2)));
        }
        other => panic!("unexpected {:?}", other),
    }
    assert!(matches!(back.get_value_by_index(2), Some(FieldValue::Bytes(b)) if b == &vec![9, 8, 7]));
    match back.get_value_by_index(5) {
        Some(FieldValue::Struct(d)) => assert!(matches!(d.values[0], Some(FieldValue::Int16(-5)))),
        other => panic!("unexpected {:?}", other),
    }
    // a bulk sequence keeps only items of its element type
    let mut data2 = Int2DdsData::new(&support.descriptor);
    for (i, v) in data.values.into_iter().enumerate() {
        data2.values[i] = v;
    }
    data2.values[0] = Some(FieldValue::Sequence(vec![FieldValue::Int32(3), FieldValue::Bool(true)]));
    let bytes = support.serialize_cdr(&data2).unwrap();
    let back = support.deserialize_cdr(&bytes).unwrap();
    match back.get_value_by_index(0) {
        Some(FieldValue::Sequence(items)) => assert_eq!(items.len(), 1),
        other => panic!("unexpected {:?}", other),
    }
}

#[test]
fn field_values_as_filter_parameters() {
    let desc = create_test_descriptor();
    let data = sample(&desc, 0xFFFF_FFFF, "txt", 1.0);
    let support = DynamicTypeSupport::new(desc);
    assert!(matches!(support.get_field_value(&data, "id"), Ok(Parameter::IntegerValue(-1))));
    assert!(matches!(support.get_field_value(&data, "message"), Ok(Parameter::String(s)) if s == "txt"));
    assert!(matches!(support.get_field_value(&data, "value"), Ok(Parameter::Float64Bits(b)) if b == 1.0f64.to_bits()));
    let err = support.get_field_value(&data, "zzz").unwrap_err();
    assert_eq!(error_message(err), "Field not found: zzz");
    assert!(support.has_field("message"));
    assert!(!support.has_field("zzz"));
    assert!(support.is_compute_key_provided());
    assert_eq!(support.get_type_name(), "TestType");
}

#[test]
fn keys_ignore_non_key_fields() {
    let desc = create_test_descriptor();
    let a = sample(&desc, 77, "one", 1.0);
    let b = sample(&desc, 77, "two", 2.0);
    let support = DynamicTypeSupport::new(desc);
    assert_eq!(support.compute_key(&a), support.compute_key(&b));
    let mut nokey = Int2DdsTypeDescriptor::new("N");
    nokey.add_field("x", FieldTypeInfo::UInt8, false);
    let mut d = Int2DdsData::new(&nokey);
    d.set_value(&nokey, "x", FieldValue::UInt8(3)).unwrap();
    let support = DynamicTypeSupport::new(nokey);
    assert_eq!(support.compute_key(&d), [0u8; 16]);
    assert!(!support.is_compute_key_provided());
}

#[test]
fn detection_reads_back_every_extensibility() {
    for ext in [ExtensibilityKind::Final, ExtensibilityKind::Appendable, ExtensibilityKind::Mutable] {
        let mut desc = create_test_descriptor();
        desc.extensibility = ext;
        let data = sample(&desc, 42, "detect", -0.5);
        let support = DynamicTypeSupport::new(desc);
        for format in [WireFormat::Cdr, WireFormat::Xcdr2] {
            let bytes = support.serialize(&data, Some(format)).unwrap();
            let back = support.deserialize(&bytes, None).unwrap();
            assert!(matches!(back.get_value_by_index(0), Some(FieldValue::UInt32(42))));
            match back.get_value_by_index(1) {
                Some(FieldValue::String(s)) => assert_eq!(s, "detect"),
                other => panic!("unexpected {:?}", other),
            }
            assert!(matches!(back.get_value_by_index(2), Some(FieldValue::Float64(b)) if *b == (-0.5f64).to_bits()));
        }
    }
}

#[test]
fn serialized_key_ignores_other_fields() {
    let support = DynamicTypeSupport::new(create_test_descriptor());
    let a = sample(&support.descriptor, 7, "one", 1.0);
    let b = sample(&support.descriptor, 7, "two", 2.0);
    let c = sample(&support.descriptor, 8, "one", 1.0);
    let ka = support.serialize_key_fields(&a).unwrap();
    assert_eq!(ka, support.serialize_key_fields(&b).unwrap());
    assert_ne!(ka, support.serialize_key_fields(&c).unwrap());
    assert_eq!(ka, vec![0, 1, 0, 0, 7, 0, 0, 0]);
    assert_eq!(support.compute_key(&a), support.compute_key(&b));
}

#[test]
fn types_without_keys_give_the_nil_key() {
    let mut desc = Int2DdsTypeDescriptor::new("NoKey");
    desc.add_field("a", FieldTypeInfo::Int32, false);
    let mut data = Int2DdsData::new(&desc);
    data.set_value(&desc, "a", FieldValue::Int32(9)).unwrap();
    let support = DynamicTypeSupport::new(desc);
    assert_eq!(support.compute_key(&data), [0u8; 16]);
    assert!(!support.is_compute_key_provided());
}
