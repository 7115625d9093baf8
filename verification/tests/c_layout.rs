use int2dds_ffi::c_layout::{
    kind_from_raw, parse_struct, scalar_kind, CElemSpec, CName, CNodeSpec, CScalarKind, Int2DdsCFieldKind,
    Int2DdsCFieldLayout, Int2DdsCTypeLayout,
};
use int2dds_ffi::error::{INT2DDS_RET_INVALID_ARGUMENT, INT2DDS_RET_NULL_POINTER};

fn field(name: &str, kind: i32, size: u32) -> Int2DdsCFieldLayout {
    Int2DdsCFieldLayout {
        name: CName::Text(name.to_string()),
        kind,
        offset: 0,
        length_offset: 0,
        size,
        count: 0,
        elem_kind: 0,
        elem_size: 0,
        nested: None,
    }
}

fn table(name: &str, fields: Vec<Int2DdsCFieldLayout>) -> Option<Box<Int2DdsCTypeLayout>> {
    Some(Box::new(Int2DdsCTypeLayout {
        typename: CName::Text(name.to_string()),
        struct_size: 16,
        field_count: fields.len() as u32,
        fields: Some(fields),
    }))
}

#[test]
fn kinds_decode_from_raw_codes() {
    assert_eq!(kind_from_raw(0), Some(Int2DdsCFieldKind::CFieldNone));
    assert_eq!(kind_from_raw(21), Some(Int2DdsCFieldKind::CFieldSequencePtr));
    assert_eq!(kind_from_raw(22), None);
    assert_eq!(kind_from_raw(-1), None);
    for raw in 0..22 {
        assert_eq!(kind_from_raw(raw).unwrap().code(), raw);
    }
    assert_eq!(scalar_kind(Int2DdsCFieldKind::CFieldBitmask), Some(CScalarKind::Packed));
    assert_eq!(scalar_kind(Int2DdsCFieldKind::CFieldArray), None);
}

#[test]
fn parses_a_flat_struct() {
    let layout = table("Point", vec![field("x", 6, 4), field("name", 15, 32), field("flag", 1, 1)]);
    let spec = parse_struct(&layout, 0).unwrap();
    assert_eq!(spec.typename, "Point");
    assert_eq!(spec.size, 16);
    assert_eq!(spec.fields.len(), 3);
    assert!(matches!(spec.fields[0].node, CNodeSpec::Scalar { kind: CScalarKind::I32, size: 4 }));
    assert!(matches!(spec.fields[1].node, CNodeSpec::StrInline { capacity: 32 }));
    assert_eq!(spec.fields[2].name, "flag");
}

#[test]
fn parses_nested_struct_and_sequences() {
    let inner = table("Inner", vec![field("v", 3, 1)]);
    let mut seq = field("items", 20, 0);
    seq.count = 4;
    seq.elem_kind = 18;
    seq.nested = inner;
    let mut arr = field("arr", 19, 0);
    arr.count = 3;
    arr.elem_kind = 16;
    let layout = table("Outer", vec![seq, arr]);
    let spec = parse_struct(&layout, 0).unwrap();
    match &spec.fields[0].node {
        CNodeSpec::Sequence { elem: CElemSpec::Struct(s), bound: Some(4), .. } => assert_eq!(s.typename, "Inner"),
        other => panic!("unexpected {:?}", other),
    }
    assert!(matches!(spec.fields[1].node, CNodeSpec::Array { elem: CElemSpec::StrPtr, count: 3 }));
}

#[test]
fn rejects_bad_tables() {
    assert_eq!(parse_struct(&None, 0).unwrap_err(), INT2DDS_RET_NULL_POINTER);
    let layout = table("T", vec![field("x", 6, 4)]);
    assert_eq!(parse_struct(&layout, 33).unwrap_err(), INT2DDS_RET_INVALID_ARGUMENT);
    assert_eq!(parse_struct(&layout, u32::MAX).unwrap_err(), INT2DDS_RET_INVALID_ARGUMENT);
    assert_eq!(parse_struct(&None, u32::MAX).unwrap_err(), INT2DDS_RET_NULL_POINTER);
    let layout = table("T", vec![field("x", 99, 4)]);
    assert_eq!(parse_struct(&layout, 0).unwrap_err(), INT2DDS_RET_INVALID_ARGUMENT);
    let layout = table("T", vec![field("x", 0, 4)]);
    assert_eq!(parse_struct(&layout, 0).unwrap_err(), INT2DDS_RET_INVALID_ARGUMENT);
    let mut bounded = field("s", 20, 0);
    bounded.elem_kind = 6;
    let layout = table("T", vec![bounded]);
    assert_eq!(parse_struct(&layout, 0).unwrap_err(), INT2DDS_RET_INVALID_ARGUMENT);
    let mut unnamed = field("x", 6, 4);
    unnamed.name = CName::Null;
    let layout = table("T", vec![unnamed, field("y", 99, 1)]);
    assert_eq!(parse_struct(&layout, 0).unwrap_err(), INT2DDS_RET_NULL_POINTER);
    let missing = Some(Box::new(Int2DdsCTypeLayout {
        typename: CName::Text("T".to_string()),
        struct_size: 0,
        field_count: 2,
        fields: None,
    }));
    assert_eq!(parse_struct(&missing, 0).unwrap_err(), INT2DDS_RET_NULL_POINTER);
    let empty = Some(Box::new(Int2DdsCTypeLayout {
        typename: CName::Text("E".to_string()),
        struct_size: 0,
        field_count: 0,
        fields: None,
    }));
    assert!(parse_struct(&empty, 0).unwrap().fields.is_empty());
    let bad_name = Some(Box::new(Int2DdsCTypeLayout {
        typename: CName::NotUtf8,
        struct_size: 0,
        field_count: 0,
        fields: None,
    }));
    assert_eq!(parse_struct(&bad_name, 0).unwrap_err(), INT2DDS_RET_INVALID_ARGUMENT);
    let too_many = Some(Box::new(Int2DdsCTypeLayout {
        typename: CName::Text("T".to_string()),
        struct_size: 0,
        field_count: 0x10001,
        fields: None,
    }));
    assert_eq!(parse_struct(&too_many, 0).unwrap_err(), INT2DDS_RET_INVALID_ARGUMENT);
}

#[test]
fn nesting_deeper_than_the_limit_is_refused() {
    let mut layout = table("Leaf", vec![field("v", 1, 1)]);
    for depth in 0..33 {
        let mut f = field("child", 18, 0);
        f.nested = layout;
        layout = table(&format!("L{}", depth), vec![f]);
    }
    assert_eq!(parse_struct(&layout, 0).unwrap_err(), INT2DDS_RET_INVALID_ARGUMENT);
}
