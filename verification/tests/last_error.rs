use int2dds_ffi::error::{dds_error_to_code, DdsError, INT2DDS_RET_ERROR, INT2DDS_RET_TIMEOUT};
use int2dds_ffi::last_error::{clear_last_error, last_error_message, set_last_error, LastError};

fn read(slot: &LastError, buf_len: i32) -> (i32, String) {
    let (n, bytes) = last_error_message(slot, buf_len > 0, buf_len);
    let s = match bytes {
        Some(b) => b.iter().take_while(|&&c| c != 0).map(|&c| c as char).collect(),
        None => String::new(),
    };
    (n, s)
}

#[test]
fn stores_and_returns_message() {
    let mut slot = LastError::new();
    clear_last_error(&mut slot);
    set_last_error(&mut slot, "QoS profile not found: Foo::Bar");
    let (n, s) = read(&slot, 64);
    assert_eq!(n, "QoS profile not found: Foo::Bar".len() as i32);
    assert_eq!(s, "QoS profile not found: Foo::Bar");
}

#[test]
fn empty_when_cleared() {
    let mut slot = LastError::new();
    set_last_error(&mut slot, "something");
    clear_last_error(&mut slot);
    let (n, s) = read(&slot, 64);
    assert_eq!(n, 0);
    assert_eq!(s, "");
}

#[test]
fn query_mode_returns_length_without_writing() {
    let mut slot = LastError::new();
    clear_last_error(&mut slot);
    set_last_error(&mut slot, "hello");
    let (n, bytes) = last_error_message(&slot, false, 0);
    assert_eq!(n, 5);
    assert!(bytes.is_none());
}

#[test]
fn truncates_at_char_boundary() {
    let mut slot = LastError::new();
    clear_last_error(&mut slot);
    set_last_error(&mut slot, "héllo");
    let (n, bytes) = last_error_message(&slot, true, 3);
    assert_eq!(n, 6);
    assert_eq!(bytes.unwrap(), vec![b'h', 0]);
}

#[test]
fn error_codes_set_and_clear_the_message() {
    let mut slot = LastError::new();
    let code = dds_error_to_code(&DdsError::Error("boom".to_string()), &mut slot);
    assert_eq!(code, INT2DDS_RET_ERROR);
    assert_eq!(read(&slot, 16), (4, "boom".to_string()));
    let code = dds_error_to_code(&DdsError::Timeout, &mut slot);
    assert_eq!(code, INT2DDS_RET_TIMEOUT);
    assert_eq!(read(&slot, 16), (0, String::new()));
    assert_eq!(dds_error_to_code(&DdsError::BadParameter, &mut slot), 11);
    assert_eq!(dds_error_to_code(&DdsError::NoData, &mut slot), 27);
}
