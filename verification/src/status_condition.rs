//! Status masks for status conditions: one bit per DDS status kind.

use vstd::prelude::*;

verus! {

pub const INT2DDS_STATUS_INCONSISTENT_TOPIC: u32 = 1 << 0;

pub const INT2DDS_STATUS_OFFERED_DEADLINE_MISSED: u32 = 1 << 1;

pub const INT2DDS_STATUS_REQUESTED_DEADLINE_MISSED: u32 = 1 << 2;

pub const INT2DDS_STATUS_OFFERED_INCOMPATIBLE_TYPE: u32 = 1 << 3;

pub const INT2DDS_STATUS_REQUESTED_INCOMPATIBLE_TYPE: u32 = 1 << 4;

pub const INT2DDS_STATUS_OFFERED_INCOMPATIBLE_QOS: u32 = 1 << 5;

pub const INT2DDS_STATUS_REQUESTED_INCOMPATIBLE_QOS: u32 = 1 << 6;

pub const INT2DDS_STATUS_SAMPLE_LOST: u32 = 1 << 7;

pub const INT2DDS_STATUS_SAMPLE_REJECTED: u32 = 1 << 8;

pub const INT2DDS_STATUS_DATA_ON_READERS: u32 = 1 << 9;

pub const INT2DDS_STATUS_DATA_AVAILABLE: u32 = 1 << 10;

pub const INT2DDS_STATUS_LIVELINESS_LOST: u32 = 1 << 11;

pub const INT2DDS_STATUS_LIVELINESS_CHANGED: u32 = 1 << 12;

pub const INT2DDS_STATUS_PUBLICATION_MATCHED: u32 = 1 << 13;

pub const INT2DDS_STATUS_SUBSCRIPTION_MATCHED: u32 = 1 << 14;

/// Every status bit.
pub const INT2DDS_STATUS_ALL: u32 = 0x7FFF;

/// The status mask a condition is enabled with: the known status bits of
/// `mask`, unknown bits dropped.
pub fn status_mask_from_bits(mask: u32) -> (r: u32)
    ensures
        r == mask & INT2DDS_STATUS_ALL,
        r <= INT2DDS_STATUS_ALL,
{
    let r = mask & INT2DDS_STATUS_ALL;
    assert(mask & 0x7FFFu32 <= 0x7FFFu32) by (bit_vector);
    r
}

/// Truncating a mask twice is truncating it once, and the known bits of a
/// mask survive truncation.
pub proof fn law_status_mask_idempotent(mask: u32)
    ensures
        (mask & INT2DDS_STATUS_ALL) & INT2DDS_STATUS_ALL == mask & INT2DDS_STATUS_ALL,
        mask <= INT2DDS_STATUS_ALL ==> mask & INT2DDS_STATUS_ALL == mask,
{
    assert((mask & 0x7FFFu32) & 0x7FFFu32 == mask & 0x7FFFu32) by (bit_vector);
    assert(mask <= 0x7FFFu32 ==> mask & 0x7FFFu32 == mask) by (bit_vector);
}

} // verus!
