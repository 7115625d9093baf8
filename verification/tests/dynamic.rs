use int2dds_ffi::dynamic::{
    copy_str_to_c, first_matching_publication, first_publication_with_type_object, int2dds_dynamic_data_get_len,
    int2dds_dynamic_data_get_member, parse_usize, resolve_path, split_at_dot, split_index, take_timeout_ms, take_wait,
    type_object_wait_outcome, Int2DdsMemberInfo, TakeWait,
};
use int2dds_ffi::dynamic_value::{DynamicData, DynamicValue};
use int2dds_ffi::error::{
    INT2DDS_RET_BUFFER_TOO_SMALL, INT2DDS_RET_DYNAMIC_DECODE_ERROR, INT2DDS_RET_DYNAMIC_FIELD_NOT_FOUND,
    INT2DDS_RET_DYNAMIC_TIMEOUT, INT2DDS_RET_DYNAMIC_TYPE_MISMATCH, INT2DDS_RET_NULL_POINTER, INT2DDS_RET_OK,
};

#[test]
fn path_segments_split_name_and_index() {
    assert_eq!(split_index("items[2]"), ("items", Some(2)));
    assert_eq!(split_index("pos"), ("pos", None));
    assert_eq!(split_index("tags[x]"), ("tags", None));
    assert_eq!(split_index("tags[3"), ("tags", None));
    assert_eq!(split_index("a[+7]"), ("a", Some(7)));
    assert_eq!(split_index("a[]"), ("a", None));
    assert_eq!(split_index("é[1]"), ("é", Some(1)));
    assert_eq!(split_index("[0]"), ("", Some(0)));
}

#[test]
fn indices_parse_like_str_parse() {
    for s in ["0", "12", "+5", "", "+", "-1", "1a", "18446744073709551615", "18446744073709551616"] {
        assert_eq!(parse_usize(s.as_bytes()), s.parse::<usize>().ok(), "input {:?}", s);
    }
}

#[test]
fn names_copied_to_c_buffers() {
    assert_eq!(copy_str_to_c("abc", false, 10, true), (INT2DDS_RET_NULL_POINTER, None, None));
    assert_eq!(copy_str_to_c("abc", true, 10, false), (INT2DDS_RET_NULL_POINTER, None, None));
    assert_eq!(copy_str_to_c("abc", true, 3, true), (INT2DDS_RET_DYNAMIC_DECODE_ERROR, Some(3), None));
    assert_eq!(copy_str_to_c("abc", true, 4, true), (INT2DDS_RET_OK, Some(3), Some(b"abc\0".to_vec())));
}

#[test]
fn member_info_is_plain_data() {
    let info = Int2DdsMemberInfo { member_id: 3, kind: 5, flags: 1 };
    let copy = info;
    assert_eq!(copy.member_id, 3);
    assert_eq!(info.flags, 1);
}

#[test]
fn first_matching_publication_skips_unreadable_and_other_topics() {
    let topics = vec![None, Some("Other".to_string()), Some("Sensor".to_string()), Some("Sensor".to_string())];
    assert_eq!(first_matching_publication(&topics, Some("Sensor")), Some(2));
    assert_eq!(first_matching_publication(&topics, None), Some(1));
    assert_eq!(first_matching_publication(&topics, Some("Missing")), None);
    assert_eq!(first_matching_publication(&Vec::new(), None), None);
}

#[test]
fn take_wait_caps_at_one_second() {
    assert_eq!(take_wait(-1, false, 0), TakeWait::Wait { sec: 1, nanosec: 0 });
    assert_eq!(take_wait(500, true, 0), TakeWait::Timeout);
    assert_eq!(take_wait(5000, false, 4200), TakeWait::Wait { sec: 1, nanosec: 0 });
    assert_eq!(take_wait(5000, false, 250), TakeWait::Wait { sec: 0, nanosec: 250_000_000 });
}

#[test]
fn type_object_wait_outcomes() {
    assert_eq!(type_object_wait_outcome(INT2DDS_RET_DYNAMIC_TIMEOUT, false, 0), Some(INT2DDS_RET_DYNAMIC_TIMEOUT));
    assert_eq!(type_object_wait_outcome(INT2DDS_RET_OK, false, 0), None);
    assert_eq!(type_object_wait_outcome(INT2DDS_RET_OK, true, INT2DDS_RET_BUFFER_TOO_SMALL), Some(INT2DDS_RET_BUFFER_TOO_SMALL));
    assert_eq!(type_object_wait_outcome(INT2DDS_RET_OK, true, INT2DDS_RET_OK), Some(INT2DDS_RET_OK));
    assert_eq!(take_timeout_ms(-5, 0), -1);
    assert_eq!(take_timeout_ms(100, 40), 40);
}

fn sample() -> DynamicData {
    let pos = DynamicData {
        members: vec![("x".to_string(), DynamicValue::Int32(3)), ("y".to_string(), DynamicValue::Int32(4))],
    };
    let item = |id: i32| DynamicValue::Struct(Box::new(DynamicData { members: vec![("id".to_string(), DynamicValue::Int32(id))] }));
    DynamicData {
        members: vec![
            ("count".to_string(), DynamicValue::Int32(2)),
            ("pos".to_string(), DynamicValue::Struct(Box::new(pos))),
            ("items".to_string(), DynamicValue::Sequence(vec![item(10), item(11)])),
            ("grid".to_string(), DynamicValue::Array(vec![DynamicValue::Int32(7), DynamicValue::Int32(8)])),
        ],
    }
}

fn int_at(node: Option<&DynamicValue>) -> Option<i32> {
    match node {
        Some(DynamicValue::Int32(v)) => Some(*v),
        _ => None,
    }
}

#[test]
fn resolve_path_walks_members_and_indexes() {
    let data = sample();
    assert_eq!(int_at(resolve_path(&data, "count")), Some(2));
    assert_eq!(int_at(resolve_path(&data, "pos.y")), Some(4));
    assert_eq!(int_at(resolve_path(&data, "items[1].id")), Some(11));
    assert_eq!(int_at(resolve_path(&data, "grid[0]")), Some(7));
    assert!(matches!(resolve_path(&data, "pos"), Some(DynamicValue::Struct(_))));
    // an index that does not parse is ignored: the whole sequence is reached
    assert!(matches!(resolve_path(&data, "items[x]"), Some(DynamicValue::Sequence(_))));
}

#[test]
fn resolve_path_misses() {
    let data = sample();
    assert!(resolve_path(&data, "missing").is_none());
    assert!(resolve_path(&data, "items[2]").is_none());
    assert!(resolve_path(&data, "count.x").is_none());
    assert!(resolve_path(&data, "count[0]").is_none());
    assert!(resolve_path(&data, "pos.").is_none());
    assert!(resolve_path(&data, "").is_none());
}

#[test]
fn data_getters_report_missing_and_mismatched_fields() {
    let data = sample();
    assert_eq!(int2dds_dynamic_data_get_len(&data, "items"), Ok(2));
    assert_eq!(int2dds_dynamic_data_get_len(&data, "grid"), Ok(2));
    assert_eq!(int2dds_dynamic_data_get_len(&data, "count"), Err(INT2DDS_RET_DYNAMIC_TYPE_MISMATCH));
    assert_eq!(int2dds_dynamic_data_get_len(&data, "nope"), Err(INT2DDS_RET_DYNAMIC_FIELD_NOT_FOUND));
    let pos = int2dds_dynamic_data_get_member(&data, "pos").unwrap();
    assert_eq!(pos.members.len(), 2);
    let item = int2dds_dynamic_data_get_member(&data, "items[0]").unwrap();
    assert!(matches!(item.members[0].1, DynamicValue::Int32(10)));
    assert_eq!(int2dds_dynamic_data_get_member(&data, "count").unwrap_err(), INT2DDS_RET_DYNAMIC_TYPE_MISMATCH);
    assert_eq!(int2dds_dynamic_data_get_member(&data, "pos.z").unwrap_err(), INT2DDS_RET_DYNAMIC_FIELD_NOT_FOUND);
}

#[test]
fn split_at_dot_splits_once() {
    assert_eq!(split_at_dot("a.b.c"), ("a", Some("b.c")));
    assert_eq!(split_at_dot("abc"), ("abc", None));
    assert_eq!(split_at_dot("a."), ("a", Some("")));
}

#[test]
fn type_object_wait_passes_over_publications_without_one() {
    let samples = vec![
        Some(("Sensor".to_string(), false)),
        None,
        Some(("Other".to_string(), true)),
        Some(("Sensor".to_string(), true)),
    ];
    assert_eq!(first_publication_with_type_object(&samples, "Sensor"), Some(3));
    assert_eq!(first_publication_with_type_object(&samples, "Other"), Some(2));
    assert_eq!(first_publication_with_type_object(&samples[..2].to_vec(), "Sensor"), None);
}
