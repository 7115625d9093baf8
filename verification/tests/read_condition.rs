use int2dds_ffi::c_layout::CName;
use int2dds_ffi::error::INT2DDS_RET_INVALID_ARGUMENT;
use int2dds_ffi::read_condition::{collect_c_strings, state_masks};

#[test]
fn read_condition_masks_have_no_zero_rule() {
    let s = state_masks(0, 0, 0);
    assert_eq!(s.sample_states, 0);
    assert_eq!(s.view_states, 0);
    assert_eq!(s.instance_states, 0);
    let t = state_masks(0xFFFF, 0x2, 0x6);
    assert_eq!(t.sample_states, 0x3);
    assert_eq!(t.view_states, 0x2);
    assert_eq!(t.instance_states, 0x6);
}

#[test]
fn query_parameters_fail_as_invalid_arguments() {
    assert!(collect_c_strings(0, &None).unwrap().is_empty());
    assert_eq!(collect_c_strings(1, &None).unwrap_err(), INT2DDS_RET_INVALID_ARGUMENT);
    let names = Some(vec![CName::Text("10".to_string()), CName::Null]);
    assert_eq!(collect_c_strings(2, &names).unwrap_err(), INT2DDS_RET_INVALID_ARGUMENT);
    let names = Some(vec![CName::Text("10".to_string()), CName::Text("'a'".to_string())]);
    assert_eq!(collect_c_strings(2, &names).unwrap(), vec!["10", "'a'"]);
    let names = Some(vec![CName::NotUtf8]);
    assert_eq!(collect_c_strings(1, &names).unwrap_err(), INT2DDS_RET_INVALID_ARGUMENT);
}
