use int2dds_ffi::c_layout::CName;
use int2dds_ffi::error::{INT2DDS_RET_INVALID_ARGUMENT, INT2DDS_RET_NULL_POINTER};
use int2dds_ffi::qos::{
    data_representation_from_code, duration_from_nanos, durability_kind_from_code, history_kind_from_code,
    liveliness_setting, partition_names, reliability_setting, DataRepresentationId, DurabilityKind, Duration,
    HistoryKind, LivelinessKind, ReliabilityKind, INT2DDS_QOS_DATA_REPR_XCDR2, INT2DDS_QOS_DURABILITY_TRANSIENT_LOCAL,
    INT2DDS_QOS_HISTORY_KEEP_LAST, INT2DDS_QOS_LIVELINESS_MANUAL_BY_TOPIC, INT2DDS_QOS_RELIABILITY_RELIABLE,
};

#[test]
fn test_qos_create_destroy() {
    let (kind, blocking) = reliability_setting(INT2DDS_QOS_RELIABILITY_RELIABLE, 100_000_000).unwrap();
    assert_eq!(kind, ReliabilityKind::Reliable);
    assert_eq!(blocking, Duration { sec: 0, nanosec: 100_000_000 });
    assert_eq!(durability_kind_from_code(INT2DDS_QOS_DURABILITY_TRANSIENT_LOCAL), Some(DurabilityKind::TransientLocal));
    assert_eq!(history_kind_from_code(INT2DDS_QOS_HISTORY_KEEP_LAST, 10), Some(HistoryKind::KeepLast(10)));
}

#[test]
fn test_deadline_qos() {
    assert_eq!(duration_from_nanos(1_000_000_000), Duration { sec: 1, nanosec: 0 });
    assert_eq!(duration_from_nanos(500_000_000), Duration { sec: 0, nanosec: 500_000_000 });
}

#[test]
fn test_liveliness_qos() {
    let (kind, lease) = liveliness_setting(INT2DDS_QOS_LIVELINESS_MANUAL_BY_TOPIC, 2_000_000_000).unwrap();
    assert_eq!(kind, LivelinessKind::ManualByTopic);
    assert_eq!(lease, Duration { sec: 2, nanosec: 0 });
    assert_eq!(liveliness_setting(99, 1_000_000_000).unwrap_err(), INT2DDS_RET_INVALID_ARGUMENT);
}

#[test]
fn test_publisher_qos_partition() {
    let names = Some(vec![CName::Text("partition_a".to_string()), CName::Text("partition_b".to_string())]);
    let got = partition_names(2, &names).unwrap();
    assert_eq!(got, vec!["partition_a", "partition_b"]);
}

#[test]
fn partition_errors_and_empty_list() {
    assert!(partition_names(0, &None).unwrap().is_empty());
    assert_eq!(partition_names(1, &None).unwrap_err(), INT2DDS_RET_NULL_POINTER);
    let names = Some(vec![CName::Text("a".to_string()), CName::NotUtf8, CName::Null]);
    assert_eq!(partition_names(3, &names).unwrap_err(), INT2DDS_RET_INVALID_ARGUMENT);
    let names = Some(vec![CName::Null, CName::NotUtf8]);
    assert_eq!(partition_names(2, &names).unwrap_err(), INT2DDS_RET_NULL_POINTER);
}

#[test]
fn durations_truncate_toward_zero() {
    assert_eq!(duration_from_nanos(2_500_000_001), Duration { sec: 2, nanosec: 500_000_001 });
    let d = duration_from_nanos(-1_500_000_000);
    assert_eq!(d.sec, -1);
    assert_eq!(d.nanosec, (-500_000_000i64) as u32);
    assert_eq!(reliability_setting(7, 0).unwrap_err(), INT2DDS_RET_INVALID_ARGUMENT);
    assert_eq!(data_representation_from_code(INT2DDS_QOS_DATA_REPR_XCDR2), Some(DataRepresentationId::Xcdr2));
    assert_eq!(data_representation_from_code(1), None);
}
