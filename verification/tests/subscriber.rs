use int2dds_ffi::subscriber::{
    state_kinds_from_masks, INT2DDS_INSTANCE_STATE_ALIVE, INT2DDS_INSTANCE_STATE_ANY,
    INT2DDS_INSTANCE_STATE_NOT_ALIVE_NO_WRITERS, INT2DDS_SAMPLE_STATE_ANY, INT2DDS_SAMPLE_STATE_NOT_READ,
    INT2DDS_VIEW_STATE_NEW,
};

#[test]
fn zero_masks_select_every_state() {
    let s = state_kinds_from_masks(0, 0, 0);
    assert_eq!(s.sample_states, 0x3);
    assert_eq!(s.view_states, 0x3);
    assert_eq!(s.instance_states, 0x7);
}

#[test]
fn any_masks_keep_only_known_states() {
    let s = state_kinds_from_masks(INT2DDS_SAMPLE_STATE_ANY, INT2DDS_SAMPLE_STATE_ANY, INT2DDS_INSTANCE_STATE_ANY);
    assert_eq!(s.sample_states, 0x3);
    assert_eq!(s.view_states, 0x3);
    assert_eq!(s.instance_states, 0x7);
}

#[test]
fn single_states_pass_through() {
    let s = state_kinds_from_masks(
        INT2DDS_SAMPLE_STATE_NOT_READ,
        INT2DDS_VIEW_STATE_NEW,
        INT2DDS_INSTANCE_STATE_ALIVE | INT2DDS_INSTANCE_STATE_NOT_ALIVE_NO_WRITERS,
    );
    assert_eq!(s.sample_states, 0x2);
    assert_eq!(s.view_states, 0x1);
    assert_eq!(s.instance_states, 0x5);
}

#[test]
fn unknown_bits_alone_select_nothing() {
    let s = state_kinds_from_masks(0x10, 0x8, 0x8);
    assert_eq!(s.sample_states, 0);
    assert_eq!(s.view_states, 0);
    assert_eq!(s.instance_states, 0);
}
