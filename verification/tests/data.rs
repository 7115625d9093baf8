use int2dds_ffi::data::{FieldValue, Int2DdsData, Int2DdsDataTypeSupport};
use int2dds_ffi::error::DdsError;
use int2dds_ffi::type_descriptor::{ExtensibilityKind, FieldTypeInfo, Int2DdsTypeDescriptor};

fn sensor() -> Int2DdsTypeDescriptor {
    let mut desc = Int2DdsTypeDescriptor::new("Sensor");
    desc.add_field("id", FieldTypeInfo::Int32, true);
    desc.add_field("name", FieldTypeInfo::String { max_length: 0 }, false);
    desc
}

#[test]
fn new_sample_has_every_field_absent() {
    let desc = sensor();
    let data = Int2DdsData::new(&desc);
    assert_eq!(data.values.len(), 2);
    assert!(data.get_value(&desc, "id").is_none());
    assert!(data.get_value_by_index(1).is_none());
    assert!(data.get_value_by_index(5).is_none());
}

#[test]
fn get_returns_what_set_stored() {
    let desc = sensor();
    let mut data = Int2DdsData::new(&desc);
    assert!(data.set_value(&desc, "name", FieldValue::String("probe".to_string())).is_ok());
    match data.get_value(&desc, "name") {
        Some(FieldValue::String(s)) => assert_eq!(s, "probe"),
        other => panic!("unexpected {:?}", other),
    }
    assert!(data.get_value(&desc, "id").is_none());
    assert!(data.set_value(&desc, "id", FieldValue::Int32(7)).is_ok());
    assert!(matches!(data.get_value(&desc, "id"), Some(FieldValue::Int32(7))));
    assert!(matches!(data.get_value_by_index(0), Some(FieldValue::Int32(7))));
    assert!(matches!(data.get_value(&desc, "name"), Some(FieldValue::String(_))));
}

#[test]
fn unknown_field_is_refused_and_changes_nothing() {
    let desc = sensor();
    let mut data = Int2DdsData::new(&desc);
    match data.set_value(&desc, "missing", FieldValue::Bool(true)) {
        Err(DdsError::Error(m)) => assert_eq!(m, "Field not found: missing"),
        other => panic!("unexpected {:?}", other),
    }
    assert!(data.values.iter().all(|v| v.is_none()));
}

#[test]
fn generic_type_support_defers_to_the_registered_one() {
    let ts = Int2DdsDataTypeSupport;
    assert_eq!(ts.get_type_name(), "Int2DdsData");
    assert!(!ts.has_field("x"));
    let deferred = "Int2DdsDataTypeSupport: Use registered TypeSupport";
    for r in [ts.get_field_value("x"), ts.deserialize(&[1, 2]), ts.deserialize_key(&[])] {
        match r {
            Err(DdsError::Error(m)) => assert_eq!(m, deferred),
            other => panic!("unexpected {:?}", other),
        }
    }
    match ts.serialize() {
        Err(DdsError::Error(m)) => assert_eq!(m, deferred),
        other => panic!("unexpected {:?}", other),
    }
    assert_eq!(ts.serialize_key().unwrap(), Vec::<u8>::new());
    assert_eq!(ts.compute_key(), [0u8; 16]);
    assert!(!ts.is_compute_key_provided());
    assert_eq!(ts.get_extensibility_kind(), ExtensibilityKind::Appendable);
}
