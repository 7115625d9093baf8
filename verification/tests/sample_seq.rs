use int2dds_ffi::error::{
    DdsError, INT2DDS_RET_BUFFER_TOO_SMALL, INT2DDS_RET_INVALID_ARGUMENT, INT2DDS_RET_NO_DATA, INT2DDS_RET_NULL_POINTER,
    INT2DDS_RET_OK, INT2DDS_RET_TIMEOUT,
};
use int2dds_ffi::last_error::{set_last_error, LastError};
use int2dds_ffi::sample_seq::{
    batch_outcome, loan_data, loan_outcome, query_sample_payload, sample_seq_get_data, sample_seq_get_info,
    sample_seq_length, serialized_batch_outcome,
};
use int2dds_ffi::types::Int2DdsSampleInfo;

fn info(valid: bool) -> Int2DdsSampleInfo {
    Int2DdsSampleInfo {
        source_timestamp_sec: 1,
        source_timestamp_nanosec: 2,
        sample_state: 1,
        view_state: 1,
        instance_state: 1,
        instance_handle: [3u8; 16],
        publication_handle: [4u8; 16],
        disposed_generation_count: 0,
        no_writers_generation_count: 0,
        sample_rank: 0,
        generation_rank: 0,
        absolute_generation_rank: 0,
        valid_data: valid,
    }
}

#[test]
fn batches_become_sequences() {
    let mut last = LastError::new();
    let (ret, seq) = batch_outcome(Ok(vec![(bytes::Bytes::from(vec![1u8, 2, 3]), info(true))]), &mut last);
    assert_eq!(ret, INT2DDS_RET_OK);
    let seq = seq.unwrap();
    assert_eq!(sample_seq_length(Some(&seq)), 1);
    assert_eq!(sample_seq_length(None), 0);
    assert_eq!(sample_seq_get_data(Some(&seq), 0, true, 3, true), (INT2DDS_RET_OK, Some(3), Some(vec![1, 2, 3])));
    assert_eq!(sample_seq_get_data(Some(&seq), 0, true, 2, true), (INT2DDS_RET_BUFFER_TOO_SMALL, Some(3), None));
    assert_eq!(sample_seq_get_data(Some(&seq), 1, true, 8, true), (INT2DDS_RET_INVALID_ARGUMENT, None, None));
    assert_eq!(sample_seq_get_data(None, 0, true, 8, true), (INT2DDS_RET_NULL_POINTER, None, None));
    let got = sample_seq_get_info(Some(&seq), 0).unwrap();
    assert_eq!(got.instance_handle, [3u8; 16]);
    assert!(got.valid_data);
    assert_eq!(sample_seq_get_info(Some(&seq), 5).unwrap_err(), INT2DDS_RET_INVALID_ARGUMENT);
}

#[test]
fn empty_batches_and_errors() {
    let mut last = LastError::new();
    set_last_error(&mut last, "keep");
    let (ret, seq) = batch_outcome(Ok(Vec::new()), &mut last);
    assert_eq!(ret, INT2DDS_RET_NO_DATA);
    assert!(seq.is_none());
    let (ret, seq) = batch_outcome(Err(DdsError::NoData), &mut last);
    assert_eq!(ret, INT2DDS_RET_NO_DATA);
    assert!(seq.is_none());
    assert_eq!(last.message.as_deref(), Some("keep"));
    let (ret, _) = batch_outcome(Err(DdsError::Timeout), &mut last);
    assert_eq!(ret, INT2DDS_RET_TIMEOUT);
    assert!(last.message.is_none());
}

#[test]
fn query_payloads() {
    assert_eq!(query_sample_payload(Ok(Some(vec![5, 6]))).as_ref(), &[5u8, 6][..]);
    assert!(query_sample_payload(Ok(None)).is_empty());
    assert!(query_sample_payload(Err(DdsError::NoData)).is_empty());
}

#[test]
fn loans_only_for_valid_samples() {
    let mut last = LastError::new();
    let out = loan_outcome(Ok((bytes::Bytes::from(vec![9u8; 4]), true)), &mut last);
    assert_eq!(out.ret, INT2DDS_RET_OK);
    assert_eq!(out.size, 4);
    assert_eq!(loan_data(out.loan.as_ref().unwrap()), &[9u8; 4][..]);
    let out = loan_outcome(Ok((bytes::Bytes::from(vec![9u8; 4]), false)), &mut last);
    assert!(out.loan.is_none());
    assert_eq!(out.size, 4);
    assert!(!out.valid_data);
    let out = loan_outcome(Err(DdsError::NoData), &mut last);
    assert_eq!(out.ret, INT2DDS_RET_NO_DATA);
}

#[test]
fn reader_batches_hand_out_empty_sequences() {
    let mut last = LastError::new();
    let (ret, seq) = serialized_batch_outcome(Ok(Vec::new()), &mut last);
    assert_eq!(ret, INT2DDS_RET_NO_DATA);
    assert_eq!(sample_seq_length(seq.as_ref()), 0);
    assert!(seq.is_some());
    let (ret, seq) = serialized_batch_outcome(Err(DdsError::NoData), &mut last);
    assert_eq!(ret, INT2DDS_RET_NO_DATA);
    assert!(seq.is_some());
    let (ret, seq) = serialized_batch_outcome(Ok(vec![(bytes::Bytes::from(vec![9u8]), info(true))]), &mut last);
    assert_eq!(ret, INT2DDS_RET_OK);
    assert_eq!(sample_seq_length(seq.as_ref()), 1);
    let (ret, seq) = serialized_batch_outcome(Err(DdsError::Error("boom".to_string())), &mut last);
    assert_eq!(ret, int2dds_ffi::error::INT2DDS_RET_ERROR);
    assert!(seq.is_none());
    assert_eq!(last.message.as_deref(), Some("boom"));
}
