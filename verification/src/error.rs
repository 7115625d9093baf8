//! Return codes of the C API and the mapping from library errors to them.

use vstd::prelude::*;

use crate::last_error::{clear_last_error, set_last_error, LastError};

verus! {

/// C return code.
pub type Int2DdsRet = i32;

/// Success.
pub const INT2DDS_RET_OK: Int2DdsRet = 0;

/// Generic error; the reason is kept as the thread's last error message.
pub const INT2DDS_RET_ERROR: Int2DdsRet = 1;

pub const INT2DDS_RET_TIMEOUT: Int2DdsRet = 2;

pub const INT2DDS_RET_UNSUPPORTED: Int2DdsRet = 3;

pub const INT2DDS_RET_INVALID_ARGUMENT: Int2DdsRet = 11;

pub const INT2DDS_RET_ALREADY_DELETED: Int2DdsRet = 20;

pub const INT2DDS_RET_NOT_ENABLED: Int2DdsRet = 21;

pub const INT2DDS_RET_IMMUTABLE_POLICY: Int2DdsRet = 22;

pub const INT2DDS_RET_INCONSISTENT_POLICY: Int2DdsRet = 23;

pub const INT2DDS_RET_PRECONDITION_NOT_MET: Int2DdsRet = 24;

pub const INT2DDS_RET_OUT_OF_RESOURCES: Int2DdsRet = 25;

pub const INT2DDS_RET_ILLEGAL_OPERATION: Int2DdsRet = 26;

pub const INT2DDS_RET_NO_DATA: Int2DdsRet = 27;

/// A required pointer argument was null.
pub const INT2DDS_RET_NULL_POINTER: Int2DdsRet = 100;

/// The caller's buffer cannot hold the result; the required size is reported.
pub const INT2DDS_RET_BUFFER_TOO_SMALL: Int2DdsRet = 101;

pub const INT2DDS_RET_DYNAMIC_FIELD_NOT_FOUND: Int2DdsRet = 200;

pub const INT2DDS_RET_DYNAMIC_TYPE_MISMATCH: Int2DdsRet = 201;

pub const INT2DDS_RET_DYNAMIC_UNSUPPORTED_TYPE: Int2DdsRet = 202;

pub const INT2DDS_RET_DYNAMIC_TIMEOUT: Int2DdsRet = 203;

pub const INT2DDS_RET_DYNAMIC_DECODE_ERROR: Int2DdsRet = 204;

/// Errors of DDS operations.
#[derive(Debug, Clone)]
pub enum DdsError {
    /// A failure with a reason.
    Error(String),
    Timeout,
    AlreadyDeleted,
    NotEnabled,
    ImmutablePolicy,
    InconsistentPolicy,
    PreconditionNotMet,
    OutOfResources,
    IllegalOperation,
    Unsupported,
    BadParameter,
    NoData,
}

/// The return code of an error.
pub open spec fn spec_error_code(error: DdsError) -> Int2DdsRet {
    match error {
        DdsError::Error(_) => INT2DDS_RET_ERROR,
        DdsError::Timeout => INT2DDS_RET_TIMEOUT,
        DdsError::AlreadyDeleted => INT2DDS_RET_ALREADY_DELETED,
        DdsError::NotEnabled => INT2DDS_RET_NOT_ENABLED,
        DdsError::ImmutablePolicy => INT2DDS_RET_IMMUTABLE_POLICY,
        DdsError::InconsistentPolicy => INT2DDS_RET_INCONSISTENT_POLICY,
        DdsError::PreconditionNotMet => INT2DDS_RET_PRECONDITION_NOT_MET,
        DdsError::OutOfResources => INT2DDS_RET_OUT_OF_RESOURCES,
        DdsError::IllegalOperation => INT2DDS_RET_ILLEGAL_OPERATION,
        DdsError::Unsupported => INT2DDS_RET_UNSUPPORTED,
        DdsError::BadParameter => INT2DDS_RET_INVALID_ARGUMENT,
        DdsError::NoData => INT2DDS_RET_NO_DATA,
    }
}

/// Convert an error to its return code. Only `Error` carries a reason, which
/// becomes the last error message; every other error clears the message so a
/// stale reason is never read back.
pub fn dds_error_to_code(error: &DdsError, last: &mut LastError) -> (code: Int2DdsRet)
    ensures
        code == spec_error_code(*error),
        match *error {
            DdsError::Error(msg) => final(last).message matches Some(m) && m@ == msg@,
            _ => final(last).message is None,
        },
{
    match error {
        DdsError::Error(msg) => set_last_error(last, msg.as_str()),
        _ => clear_last_error(last),
    }
    match error {
        DdsError::Error(_) => INT2DDS_RET_ERROR,
        DdsError::Timeout => INT2DDS_RET_TIMEOUT,
        DdsError::AlreadyDeleted => INT2DDS_RET_ALREADY_DELETED,
        DdsError::NotEnabled => INT2DDS_RET_NOT_ENABLED,
        DdsError::ImmutablePolicy => INT2DDS_RET_IMMUTABLE_POLICY,
        DdsError::InconsistentPolicy => INT2DDS_RET_INCONSISTENT_POLICY,
        DdsError::PreconditionNotMet => INT2DDS_RET_PRECONDITION_NOT_MET,
        DdsError::OutOfResources => INT2DDS_RET_OUT_OF_RESOURCES,
        DdsError::IllegalOperation => INT2DDS_RET_ILLEGAL_OPERATION,
        DdsError::Unsupported => INT2DDS_RET_UNSUPPORTED,
        DdsError::BadParameter => INT2DDS_RET_INVALID_ARGUMENT,
        DdsError::NoData => INT2DDS_RET_NO_DATA,
    }
}

} // verus!
