use int2dds_ffi::dynamic_value::{
    int2dds_dynamic_data_get_value, int2dds_dynamic_value_as_bitmask, int2dds_dynamic_value_as_bitset,
    int2dds_dynamic_value_as_enum, int2dds_dynamic_value_as_string, int2dds_dynamic_value_as_struct,
    int2dds_dynamic_value_element, int2dds_dynamic_value_kind, int2dds_dynamic_value_len,
    int2dds_dynamic_value_map_insert, int2dds_dynamic_value_map_key, int2dds_dynamic_value_map_value,
    int2dds_dynamic_value_push, int2dds_dynamic_value_union_discriminator, int2dds_dynamic_value_union_value,
    DynamicData, DynamicValue, INT2DDS_VALUE_KIND_ARRAY, INT2DDS_VALUE_KIND_BOOLEAN, INT2DDS_VALUE_KIND_FLOAT64,
    INT2DDS_VALUE_KIND_MAP, INT2DDS_VALUE_KIND_NULL, INT2DDS_VALUE_KIND_OPTIONAL, INT2DDS_VALUE_KIND_SEQUENCE,
    INT2DDS_VALUE_KIND_STRING, INT2DDS_VALUE_KIND_STRUCT, INT2DDS_VALUE_KIND_UNION, INT2DDS_VALUE_KIND_WSTRING,
};
use int2dds_ffi::error::{INT2DDS_RET_DYNAMIC_FIELD_NOT_FOUND, INT2DDS_RET_DYNAMIC_TYPE_MISMATCH};

#[test]
fn kinds_follow_the_variants() {
    assert_eq!(int2dds_dynamic_value_kind(&DynamicValue::Boolean(true)), INT2DDS_VALUE_KIND_BOOLEAN);
    assert_eq!(int2dds_dynamic_value_kind(&DynamicValue::Float64(2.25f64.to_bits())), INT2DDS_VALUE_KIND_FLOAT64);
    assert_eq!(int2dds_dynamic_value_kind(&DynamicValue::String("a".to_string())), INT2DDS_VALUE_KIND_STRING);
    assert_eq!(int2dds_dynamic_value_kind(&DynamicValue::WString("a".to_string())), INT2DDS_VALUE_KIND_WSTRING);
    assert_eq!(int2dds_dynamic_value_kind(&DynamicValue::Sequence(Vec::new())), INT2DDS_VALUE_KIND_SEQUENCE);
    assert_eq!(int2dds_dynamic_value_kind(&DynamicValue::Array(Vec::new())), INT2DDS_VALUE_KIND_ARRAY);
    assert_eq!(int2dds_dynamic_value_kind(&DynamicValue::Mapping(Vec::new())), INT2DDS_VALUE_KIND_MAP);
    assert_eq!(
        int2dds_dynamic_value_kind(&DynamicValue::Struct(Box::new(DynamicData { members: Vec::new() }))),
        INT2DDS_VALUE_KIND_STRUCT
    );
    assert_eq!(int2dds_dynamic_value_kind(&DynamicValue::Optional(None)), INT2DDS_VALUE_KIND_OPTIONAL);
    assert_eq!(int2dds_dynamic_value_kind(&DynamicValue::Null), INT2DDS_VALUE_KIND_NULL);
    assert_eq!(INT2DDS_VALUE_KIND_NULL, 24);
}

#[test]
fn push_appends_to_sequences_and_arrays_only() {
    let mut seq = DynamicValue::Sequence(Vec::new());
    assert!(int2dds_dynamic_value_push(&mut seq, DynamicValue::Int16(-3)).is_ok());
    assert!(int2dds_dynamic_value_push(&mut seq, DynamicValue::Int16(4)).is_ok());
    assert_eq!(int2dds_dynamic_value_len(&seq), Ok(2));
    assert!(matches!(int2dds_dynamic_value_element(&seq, 1), Ok(DynamicValue::Int16(4))));
    assert_eq!(int2dds_dynamic_value_element(&seq, 2).unwrap_err(), INT2DDS_RET_DYNAMIC_FIELD_NOT_FOUND);

    let mut arr = DynamicValue::Array(Vec::new());
    assert!(int2dds_dynamic_value_push(&mut arr, DynamicValue::Byte(9)).is_ok());
    assert!(matches!(int2dds_dynamic_value_element(&arr, 0), Ok(DynamicValue::Byte(9))));

    let mut scalar = DynamicValue::Int32(1);
    match int2dds_dynamic_value_push(&mut scalar, DynamicValue::Int32(2)) {
        Err(DynamicValue::Int32(2)) => {}
        other => panic!("unexpected {:?}", other),
    }
    assert!(matches!(scalar, DynamicValue::Int32(1)));
    assert_eq!(int2dds_dynamic_value_len(&scalar), Err(INT2DDS_RET_DYNAMIC_TYPE_MISMATCH));
    assert_eq!(int2dds_dynamic_value_element(&scalar, 0).unwrap_err(), INT2DDS_RET_DYNAMIC_TYPE_MISMATCH);
}

#[test]
fn map_entries_read_back_in_order() {
    let mut map = DynamicValue::Mapping(Vec::new());
    assert!(int2dds_dynamic_value_map_insert(&mut map, DynamicValue::String("k".to_string()), DynamicValue::Uint32(5)).is_ok());
    assert!(int2dds_dynamic_value_map_insert(&mut map, DynamicValue::String("j".to_string()), DynamicValue::Uint32(6)).is_ok());
    assert_eq!(int2dds_dynamic_value_len(&map), Ok(2));
    assert_eq!(int2dds_dynamic_value_as_string(int2dds_dynamic_value_map_key(&map, 1).unwrap()), Ok("j"));
    assert!(matches!(int2dds_dynamic_value_map_value(&map, 0), Ok(DynamicValue::Uint32(5))));
    assert_eq!(int2dds_dynamic_value_map_key(&map, 2).unwrap_err(), INT2DDS_RET_DYNAMIC_FIELD_NOT_FOUND);

    let mut not_map = DynamicValue::Sequence(Vec::new());
    assert!(int2dds_dynamic_value_map_insert(&mut not_map, DynamicValue::Null, DynamicValue::Null).is_err());
    assert_eq!(int2dds_dynamic_value_map_value(&not_map, 0).unwrap_err(), INT2DDS_RET_DYNAMIC_TYPE_MISMATCH);
}

#[test]
fn typed_readers_check_the_variant() {
    let e = DynamicValue::Enum { name: "RED".to_string(), value: 2 };
    assert_eq!(int2dds_dynamic_value_as_enum(&e), Ok(("RED", 2)));
    assert_eq!(int2dds_dynamic_value_as_enum(&DynamicValue::Int32(2)), Err(INT2DDS_RET_DYNAMIC_TYPE_MISMATCH));
    assert_eq!(int2dds_dynamic_value_as_bitmask(&DynamicValue::Bitmask(0b101)), Ok(0b101));
    assert_eq!(int2dds_dynamic_value_as_bitmask(&DynamicValue::Bitset(1)), Err(INT2DDS_RET_DYNAMIC_TYPE_MISMATCH));
    assert_eq!(int2dds_dynamic_value_as_bitset(&DynamicValue::Bitset(7)), Ok(7));
    assert_eq!(int2dds_dynamic_value_as_string(&DynamicValue::WString("wide".to_string())), Ok("wide"));
    assert_eq!(int2dds_dynamic_value_as_string(&DynamicValue::Char8('x')), Err(INT2DDS_RET_DYNAMIC_TYPE_MISMATCH));

    let u = DynamicValue::Union { discriminator: Box::new(DynamicValue::Int32(1)), value: Box::new(DynamicValue::Boolean(true)) };
    assert!(matches!(int2dds_dynamic_value_union_discriminator(&u), Ok(DynamicValue::Int32(1))));
    assert!(matches!(int2dds_dynamic_value_union_value(&u), Ok(DynamicValue::Boolean(true))));
    assert_eq!(int2dds_dynamic_value_union_value(&DynamicValue::Null).unwrap_err(), INT2DDS_RET_DYNAMIC_TYPE_MISMATCH);

    let s = DynamicValue::Struct(Box::new(DynamicData { members: vec![("a".to_string(), DynamicValue::Int8(-1))] }));
    assert_eq!(int2dds_dynamic_value_as_struct(&s).unwrap().members.len(), 1);
    assert_eq!(int2dds_dynamic_value_as_struct(&DynamicValue::Null).unwrap_err(), INT2DDS_RET_DYNAMIC_TYPE_MISMATCH);
}

#[test]
fn data_get_value_follows_paths() {
    let data = DynamicData {
        members: vec![
            ("a".to_string(), DynamicValue::Int8(-1)),
            ("s".to_string(), DynamicValue::Struct(Box::new(DynamicData { members: vec![("b".to_string(), DynamicValue::Uint8(200))] }))),
        ],
    };
    assert!(matches!(int2dds_dynamic_data_get_value(&data, "a"), Ok(DynamicValue::Int8(-1))));
    assert!(matches!(int2dds_dynamic_data_get_value(&data, "s.b"), Ok(DynamicValue::Uint8(200))));
    assert_eq!(int2dds_dynamic_data_get_value(&data, "s.c").unwrap_err(), INT2DDS_RET_DYNAMIC_FIELD_NOT_FOUND);
}
