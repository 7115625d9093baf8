use int2dds_ffi::discovery::{
    builtin_topic_key_to_bytes, copy_string_to_c, instance_states_from_mask, merge_snapshot_sample,
    snapshot_next_action, InstanceStateKind, SnapshotAction, SnapshotEntry,
};
use int2dds_ffi::error::{INT2DDS_RET_BUFFER_TOO_SMALL, INT2DDS_RET_OK};

#[test]
fn instance_state_masks() {
    assert_eq!(instance_states_from_mask(0), vec![InstanceStateKind::Alive]);
    assert_eq!(instance_states_from_mask(0x8), vec![InstanceStateKind::Alive]);
    assert_eq!(
        instance_states_from_mask(0x6),
        vec![InstanceStateKind::NotAliveDisposed, InstanceStateKind::NotAliveNoWriters]
    );
    assert_eq!(instance_states_from_mask(0xFFFF).len(), 3);
}

#[test]
fn snapshot_merges_by_instance() {
    let mut entries: Vec<SnapshotEntry<u32>> = Vec::new();
    let h1 = [1u8; 16];
    let h2 = [2u8; 16];
    merge_snapshot_sample(&mut entries, h1, 1, Some(10));
    merge_snapshot_sample(&mut entries, h2, 1, Some(20));
    merge_snapshot_sample(&mut entries, h1, 2, None);
    assert_eq!(entries.len(), 2);
    assert_eq!(entries[0].instance_state, 2);
    assert_eq!(entries[0].data, Some(10));
    merge_snapshot_sample(&mut entries, h1, 1, Some(11));
    assert_eq!(entries[0].data, Some(11));
    assert_eq!(entries[1].instance_handle, h2);
}

#[test]
fn snapshot_wait_schedule() {
    assert_eq!(snapshot_next_action(-1, true, false, 0), SnapshotAction::Done);
    assert_eq!(snapshot_next_action(-1, false, false, 0), SnapshotAction::Wait { sec: 0, nanosec: 200_000_000 });
    assert_eq!(snapshot_next_action(100, false, true, 0), SnapshotAction::Done);
    assert_eq!(snapshot_next_action(100, true, false, 50), SnapshotAction::Wait { sec: 0, nanosec: 50_000_000 });
    assert_eq!(snapshot_next_action(1000, false, false, 900), SnapshotAction::Wait { sec: 0, nanosec: 200_000_000 });
}

#[test]
fn builtin_keys_are_big_endian() {
    let bytes = builtin_topic_key_to_bytes(&[0x01020304, -1, 0]);
    assert_eq!(bytes, [1, 2, 3, 4, 0xFF, 0xFF, 0xFF, 0xFF, 0, 0, 0, 0]);
}

#[test]
fn strings_copied_to_c_buffers() {
    assert_eq!(copy_string_to_c("abc", false, 0), (INT2DDS_RET_OK, 4, None));
    assert_eq!(copy_string_to_c("abc", true, 0), (INT2DDS_RET_OK, 4, None));
    assert_eq!(copy_string_to_c("abc", true, 3), (INT2DDS_RET_BUFFER_TOO_SMALL, 4, None));
    assert_eq!(copy_string_to_c("abc", true, 4), (INT2DDS_RET_OK, 4, Some(b"abc\0".to_vec())));
}
