use int2dds_ffi::data::Int2DdsDataTypeSupport;
use int2dds_ffi::status::{
    offered_incompatible_qos_status, requested_incompatible_qos_status, sample_rejected_status, Int2DdsQosPolicyId,
    Int2DdsSampleRejectedStatusKind, QosPolicyId, SampleRejectedStatusKind,
};
use int2dds_ffi::type_descriptor::ExtensibilityKind;
use int2dds_ffi::types::Int2DdsParticipantFactory;

#[test]
fn policy_ids_keep_their_codes() {
    assert_eq!(Int2DdsQosPolicyId::from(QosPolicyId::Invalid).code(), 0);
    assert_eq!(Int2DdsQosPolicyId::from(QosPolicyId::Reliability).code(), 11);
    assert_eq!(Int2DdsQosPolicyId::from(QosPolicyId::Property).code(), 25);
    assert_eq!(Int2DdsQosPolicyId::from(QosPolicyId::DataRepresentation), Int2DdsQosPolicyId::DataRepresentation);
}

#[test]
fn statuses_carry_counts_and_converted_ids() {
    let s = requested_incompatible_qos_status(3, 1, QosPolicyId::Deadline);
    assert_eq!((s.total_count, s.total_count_change, s.policies_count), (3, 1, 0));
    assert_eq!(s.last_policy_id, Int2DdsQosPolicyId::Deadline);
    let o = offered_incompatible_qos_status(5, 2, QosPolicyId::History);
    assert_eq!(o.last_policy_id.code(), 13);
    let r = sample_rejected_status(7, 0, SampleRejectedStatusKind::RejectedBySamplesLimit, [9u8; 16]);
    assert_eq!(r.last_reason, Int2DdsSampleRejectedStatusKind::RejectedBySamplesLimit);
    assert_eq!(r.last_reason.code(), 2);
    assert_eq!(r.last_instance_handle, [9u8; 16]);
}

#[test]
fn placeholder_type_support_defers() {
    let ts = Int2DdsDataTypeSupport;
    assert_eq!(ts.get_type_name(), "Int2DdsData");
    assert!(!ts.has_field("x"));
    assert!(ts.serialize().is_err());
    assert!(ts.serialize_key().unwrap().is_empty());
    assert_eq!(ts.compute_key(), [0u8; 16]);
    assert!(!ts.is_compute_key_provided());
    assert_eq!(ts.get_extensibility_kind(), ExtensibilityKind::Appendable);
    assert!(Int2DdsParticipantFactory::get_instance().initialized);
}
