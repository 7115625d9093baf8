use int2dds_ffi::status_condition::{
    status_mask_from_bits, INT2DDS_STATUS_DATA_AVAILABLE, INT2DDS_STATUS_DATA_ON_READERS,
    INT2DDS_STATUS_INCONSISTENT_TOPIC, INT2DDS_STATUS_PUBLICATION_MATCHED, INT2DDS_STATUS_SUBSCRIPTION_MATCHED,
};

#[test]
fn test_status_mask_constants() {
    assert_eq!(INT2DDS_STATUS_DATA_ON_READERS, 1 << 9);
    assert_eq!(INT2DDS_STATUS_DATA_AVAILABLE, 1 << 10);
    assert_eq!(INT2DDS_STATUS_SUBSCRIPTION_MATCHED, 1 << 14);
    assert_eq!(INT2DDS_STATUS_PUBLICATION_MATCHED, 1 << 13);
}

#[test]
fn status_mask_drops_unknown_bits() {
    assert_eq!(status_mask_from_bits(0xFFFF_FFFF), 0x7FFF);
    assert_eq!(status_mask_from_bits(INT2DDS_STATUS_DATA_AVAILABLE | 0x8000), INT2DDS_STATUS_DATA_AVAILABLE);
    assert_eq!(status_mask_from_bits(INT2DDS_STATUS_INCONSISTENT_TOPIC), 1);
    let once = status_mask_from_bits(0x1234_5678);
    assert_eq!(status_mask_from_bits(once), once);
}
