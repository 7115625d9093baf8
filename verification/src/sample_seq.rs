//! Batches of serialized samples handed to C: payloads held as shared byte
//! buffers, the outcome of a batch read or take, and the loan of a single
//! payload.

use vstd::prelude::*;

use crate::error::{
    dds_error_to_code, spec_error_code, DdsError, Int2DdsRet, INT2DDS_RET_BUFFER_TOO_SMALL, INT2DDS_RET_INVALID_ARGUMENT,
    INT2DDS_RET_NO_DATA, INT2DDS_RET_NULL_POINTER, INT2DDS_RET_OK,
};
use crate::last_error::LastError;
use crate::types::Int2DdsSampleInfo;

verus! {

/// The shared byte buffer of the `bytes` crate.
#[verifier::external_type_specification]
#[verifier::external_body]
pub struct ExBytes(bytes::Bytes);

/// The bytes a buffer holds.
pub uninterp spec fn bytes_view(b: bytes::Bytes) -> Seq<u8>;

/// Wraps `bytes::Bytes::new`, which makes an empty buffer (its source builds
/// it from an empty static slice): the contract claims it holds no bytes.
#[verifier::external_body]
fn bytes_new() -> (r: bytes::Bytes)
    ensures
        bytes_view(r) == Seq::<u8>::empty(),
{
    bytes::Bytes::new()
}

/// Wraps `bytes::Bytes::copy_from_slice`, which copies the slice into a new
/// buffer: the contract claims the buffer holds exactly the slice's bytes.
#[verifier::external_body]
fn bytes_copy_from_slice(data: &[u8]) -> (r: bytes::Bytes)
    ensures
        bytes_view(r) == data@,
{
    bytes::Bytes::copy_from_slice(data)
}

/// Wraps `bytes::Bytes::len`: the contract claims it is the number of bytes
/// held.
#[verifier::external_body]
fn bytes_len(b: &bytes::Bytes) -> (n: usize)
    ensures
        n == bytes_view(*b).len(),
{
    b.len()
}

/// Wraps `<bytes::Bytes as AsRef<[u8]>>::as_ref`: the contract claims the
/// slice is the bytes held.
#[verifier::external_body]
fn bytes_slice(b: &bytes::Bytes) -> (s: &[u8])
    ensures
        s@ == bytes_view(*b),
{
    b.as_ref()
}

/// A payload built from an optional byte vector: its bytes, or empty.
pub fn payload_of(data: Option<Vec<u8>>) -> (r: bytes::Bytes)
    ensures
        bytes_view(r) == match data {
            Some(v) => v@,
            None => Seq::<u8>::empty(),
        },
{
    match data {
        Some(v) => bytes_copy_from_slice(v.as_slice()),
        None => bytes_new(),
    }
}

/// The payload of a sample matched by a query condition: the retained CDR
/// bytes of a valid sample, and an empty payload for a sample without data
/// (`Err`) or without retained bytes.
pub fn query_sample_payload(data: Result<Option<Vec<u8>>, DdsError>) -> (r: bytes::Bytes)
    ensures
        bytes_view(r) == match data {
            Ok(Some(v)) => v@,
            _ => Seq::<u8>::empty(),
        },
{
    match data {
        Ok(d) => payload_of(d),
        Err(_) => bytes_new(),
    }
}

/// A sequence of serialized samples and their infos.
pub struct Int2DdsSampleSeq {
    pub samples: Vec<(bytes::Bytes, Int2DdsSampleInfo)>,
}

/// The outcome of a batch read or take: `NoData`, or an empty batch, is
/// `NO_DATA` with no sequence; another error is its return code (its reason
/// kept as the last error); a non-empty batch becomes the sequence.
pub fn batch_outcome(
    result: Result<Vec<(bytes::Bytes, Int2DdsSampleInfo)>, DdsError>,
    last: &mut LastError,
) -> (r: (Int2DdsRet, Option<Int2DdsSampleSeq>))
    ensures
        match result {
            Ok(s) => if s@.len() == 0 {
                r.0 == INT2DDS_RET_NO_DATA && r.1 is None
            } else {
                r.0 == INT2DDS_RET_OK && (r.1 matches Some(q) && q.samples@ == s@)
            },
            Err(DdsError::NoData) => r.0 == INT2DDS_RET_NO_DATA && r.1 is None,
            Err(e) => r.0 == spec_error_code(e) && r.1 is None && match e {
                DdsError::Error(m) => final(last).message matches Some(t) && t@ == m@,
                _ => final(last).message is None,
            },
        },
        (result is Ok || result matches Err(DdsError::NoData)) ==> final(last).message == old(last).message,
{
    match result {
        Ok(samples) => {
            if samples.len() == 0 {
                (INT2DDS_RET_NO_DATA, None)
            } else {
                (INT2DDS_RET_OK, Some(Int2DdsSampleSeq { samples }))
            }
        },
        Err(DdsError::NoData) => (INT2DDS_RET_NO_DATA, None),
        Err(e) => (dds_error_to_code(&e, last), None),
    }
}

/// The outcome of a reader's batch read or take (of all samples, or of one
/// instance): as `batch_outcome`, except that `NoData` and an empty batch
/// still hand out a sequence, an empty one, beside `NO_DATA`.
pub fn serialized_batch_outcome(
    result: Result<Vec<(bytes::Bytes, Int2DdsSampleInfo)>, DdsError>,
    last: &mut LastError,
) -> (r: (Int2DdsRet, Option<Int2DdsSampleSeq>))
    ensures
        match result {
            Ok(s) => if s@.len() == 0 {
                r.0 == INT2DDS_RET_NO_DATA && (r.1 matches Some(q) && q.samples@.len() == 0)
            } else {
                r.0 == INT2DDS_RET_OK && (r.1 matches Some(q) && q.samples@ == s@)
            },
            Err(DdsError::NoData) => r.0 == INT2DDS_RET_NO_DATA && (r.1 matches Some(q) && q.samples@.len() == 0),
            Err(e) => r.0 == spec_error_code(e) && r.1 is None && match e {
                DdsError::Error(m) => final(last).message matches Some(t) && t@ == m@,
                _ => final(last).message is None,
            },
        },
        (result is Ok || result matches Err(DdsError::NoData)) ==> final(last).message == old(last).message,
{
    match result {
        Ok(samples) => {
            if samples.len() == 0 {
                (INT2DDS_RET_NO_DATA, Some(Int2DdsSampleSeq { samples: Vec::new() }))
            } else {
                (INT2DDS_RET_OK, Some(Int2DdsSampleSeq { samples }))
            }
        },
        Err(DdsError::NoData) => (INT2DDS_RET_NO_DATA, Some(Int2DdsSampleSeq { samples: Vec::new() })),
        Err(e) => (dds_error_to_code(&e, last), None),
    }
}

/// The number of samples in a sequence; 0 for none.
pub fn sample_seq_length(seq: Option<&Int2DdsSampleSeq>) -> (n: usize)
    ensures
        n == match seq {
            Some(s) => s.samples@.len(),
            None => 0,
        },
{
    match seq {
        Some(s) => s.samples.len(),
        None => 0,
    }
}

/// Copying the payload at `index` out to a C buffer of `capacity` bytes
/// (`has_buffer`, `has_size_out` false for null pointers): the return code,
/// the size reported and the bytes written. A null sequence, buffer or size
/// slot is a null pointer; an index past the end an invalid argument; a
/// buffer too small gets nothing but the size.
pub fn sample_seq_get_data(
    seq: Option<&Int2DdsSampleSeq>,
    index: usize,
    has_buffer: bool,
    capacity: usize,
    has_size_out: bool,
) -> (r: (Int2DdsRet, Option<usize>, Option<Vec<u8>>))
    ensures
        match seq {
            None => r == (INT2DDS_RET_NULL_POINTER, None::<usize>, None::<Vec<u8>>),
            Some(s) => if !has_buffer || !has_size_out {
                r == (INT2DDS_RET_NULL_POINTER, None::<usize>, None::<Vec<u8>>)
            } else if index >= s.samples@.len() {
                r == (INT2DDS_RET_INVALID_ARGUMENT, None::<usize>, None::<Vec<u8>>)
            } else {
                let data = bytes_view(s.samples@[index as int].0);
                &&& r.1 == Some(data.len() as usize)
                &&& data.len() > capacity ==> r.0 == INT2DDS_RET_BUFFER_TOO_SMALL && r.2 is None
                &&& data.len() <= capacity ==> r.0 == INT2DDS_RET_OK && (r.2 matches Some(v) && v@ == data)
            },
        },
{
    let s = match seq {
        None => return (INT2DDS_RET_NULL_POINTER, None, None),
        Some(s) => s,
    };
    if !has_buffer || !has_size_out {
        return (INT2DDS_RET_NULL_POINTER, None, None);
    }
    if index >= s.samples.len() {
        return (INT2DDS_RET_INVALID_ARGUMENT, None, None);
    }
    let data = &s.samples[index].0;
    let n = bytes_len(data);
    if n > capacity {
        return (INT2DDS_RET_BUFFER_TOO_SMALL, Some(n), None);
    }
    let src = bytes_slice(data);
    let mut out: Vec<u8> = Vec::new();
    let mut i: usize = 0;
    while i < n
        invariant
            n == src@.len(),
            i <= n,
            out@ == src@.take(i as int),
        decreases n - i,
    {
        out.push(src[i]);
        i += 1;
        assert(out@ =~= src@.take(i as int));
    }
    assert(src@.take(n as int) =~= src@);
    (INT2DDS_RET_OK, Some(n), Some(out))
}

/// The sample info at `index`: a null sequence is a null pointer, an index
/// past the end an invalid argument.
pub fn sample_seq_get_info(seq: Option<&Int2DdsSampleSeq>, index: usize) -> (r: Result<Int2DdsSampleInfo, Int2DdsRet>)
    ensures
        match seq {
            None => r == Err::<Int2DdsSampleInfo, Int2DdsRet>(INT2DDS_RET_NULL_POINTER),
            Some(s) => if index >= s.samples@.len() {
                r == Err::<Int2DdsSampleInfo, Int2DdsRet>(INT2DDS_RET_INVALID_ARGUMENT)
            } else {
                r == Ok::<Int2DdsSampleInfo, Int2DdsRet>(s.samples@[index as int].1)
            },
        },
{
    let s = match seq {
        None => return Err(INT2DDS_RET_NULL_POINTER),
        Some(s) => s,
    };
    if index >= s.samples.len() {
        return Err(INT2DDS_RET_INVALID_ARGUMENT);
    }
    let info = &s.samples[index].1;
    Ok(
        Int2DdsSampleInfo {
            source_timestamp_sec: info.source_timestamp_sec,
            source_timestamp_nanosec: info.source_timestamp_nanosec,
            sample_state: info.sample_state,
            view_state: info.view_state,
            instance_state: info.instance_state,
            instance_handle: info.instance_handle,
            publication_handle: info.publication_handle,
            disposed_generation_count: info.disposed_generation_count,
            no_writers_generation_count: info.no_writers_generation_count,
            sample_rank: info.sample_rank,
            generation_rank: info.generation_rank,
            absolute_generation_rank: info.absolute_generation_rank,
            valid_data: info.valid_data,
        },
    )
}

/// A payload loaned to C until it is returned.
pub struct Int2DdsSerializedLoan {
    pub data: bytes::Bytes,
}

/// The outcome of taking one payload on loan.
pub struct LoanOutcome {
    pub ret: Int2DdsRet,
    /// Whether the sample carries data.
    pub valid_data: bool,
    /// Size of the payload.
    pub size: usize,
    /// The loan, for a sample with data.
    pub loan: Option<Int2DdsSerializedLoan>,
}

/// What a loaned take reports: `NoData` is `NO_DATA`, another error its
/// code; a sample reports its validity and payload size, and only a valid
/// sample's payload is loaned.
pub fn loan_outcome(result: Result<(bytes::Bytes, bool), DdsError>, last: &mut LastError) -> (r: LoanOutcome)
    ensures
        match result {
            Ok((data, valid)) => r.ret == INT2DDS_RET_OK && r.valid_data == valid && r.size == bytes_view(data).len()
                && (valid ==> (r.loan matches Some(l) && bytes_view(l.data) == bytes_view(data))) && (!valid
                ==> r.loan is None),
            Err(DdsError::NoData) => r.ret == INT2DDS_RET_NO_DATA && !r.valid_data && r.size == 0 && r.loan is None,
            Err(e) => r.ret == spec_error_code(e) && !r.valid_data && r.size == 0 && r.loan is None,
        },
{
    match result {
        Ok((data, valid)) => {
            let size = bytes_len(&data);
            if !valid {
                return LoanOutcome { ret: INT2DDS_RET_OK, valid_data: false, size, loan: None };
            }
            LoanOutcome { ret: INT2DDS_RET_OK, valid_data: true, size, loan: Some(Int2DdsSerializedLoan { data }) }
        },
        Err(DdsError::NoData) => LoanOutcome { ret: INT2DDS_RET_NO_DATA, valid_data: false, size: 0, loan: None },
        Err(e) => LoanOutcome { ret: dds_error_to_code(&e, last), valid_data: false, size: 0, loan: None },
    }
}

/// The bytes of a loaned payload, for the pointer handed to C.
pub fn loan_data(loan: &Int2DdsSerializedLoan) -> (s: &[u8])
    ensures
        s@ == bytes_view(loan.data),
{
    bytes_slice(&loan.data)
}

} // verus!
