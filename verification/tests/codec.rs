use int2dds_ffi::codec::{serialize_fields, serialize_items, serialize_value, CodecError};
use int2dds_ffi::data::FieldValue;
use int2dds_ffi::type_descriptor::{FieldTypeInfo, Int2DdsTypeDescriptor};

fn header() -> Vec<u8> {
    vec![0, 1, 0, 0]
}

#[test]
fn mismatch_appends_nothing() {
    let mut out = header();
    let r = serialize_value(&mut out, &FieldValue::Int32(5), &FieldTypeInfo::Int64, false);
    assert!(matches!(r, Err(CodecError::TypeMismatch)));
    assert_eq!(out, header());
    let r = serialize_value(&mut out, &FieldValue::Int32(5), &FieldTypeInfo::String { max_length: 0 }, false);
    assert!(matches!(r, Err(CodecError::TypeMismatch)));
    let r = serialize_value(&mut out, &FieldValue::Bool(true), &FieldTypeInfo::Bytes { max_length: 0 }, true);
    assert!(matches!(r, Err(CodecError::TypeMismatch)));
    assert_eq!(out, header());
}

#[test]
fn failing_sequence_keeps_what_was_written_before() {
    let mut out = header();
    let items = vec![FieldValue::String("a".to_string()), FieldValue::Int8(1)];
    let r = serialize_items(&mut out, &items, &FieldTypeInfo::String { max_length: 0 }, false);
    assert!(matches!(r, Err(CodecError::TypeMismatch)));
    // the first string (length 2 with NUL, then "a\0") stays after the header
    assert_eq!(out, vec![0, 1, 0, 0, 2, 0, 0, 0, b'a', 0]);
}

#[test]
fn missing_field_keeps_earlier_fields() {
    let mut desc = Int2DdsTypeDescriptor::new("T");
    desc.add_field("a", FieldTypeInfo::UInt16, false);
    desc.add_field("b", FieldTypeInfo::UInt16, false);
    let mut out = header();
    let values = vec![Some(FieldValue::UInt16(0x0102)), None];
    match serialize_fields(&mut out, &values, &desc.fields, false) {
        Err(CodecError::MissingField(n)) => assert_eq!(n, "b"),
        other => panic!("unexpected {:?}", other),
    }
    assert_eq!(out, vec![0, 1, 0, 0, 2, 1]);
}
