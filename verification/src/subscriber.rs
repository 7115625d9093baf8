//! Sample, view and instance state masks of the read and take calls.

use vstd::prelude::*;

verus! {

pub const INT2DDS_SAMPLE_STATE_READ: u32 = 0x0001;

pub const INT2DDS_SAMPLE_STATE_NOT_READ: u32 = 0x0002;

pub const INT2DDS_SAMPLE_STATE_ANY: u32 = 0xFFFF;

pub const INT2DDS_VIEW_STATE_NEW: u32 = 0x0001;

pub const INT2DDS_VIEW_STATE_NOT_NEW: u32 = 0x0002;

pub const INT2DDS_VIEW_STATE_ANY: u32 = 0xFFFF;

pub const INT2DDS_INSTANCE_STATE_ALIVE: u32 = 0x0001;

pub const INT2DDS_INSTANCE_STATE_NOT_ALIVE_DISPOSED: u32 = 0x0002;

pub const INT2DDS_INSTANCE_STATE_NOT_ALIVE_NO_WRITERS: u32 = 0x0004;

pub const INT2DDS_INSTANCE_STATE_ANY: u32 = 0xFFFF;

/// Every sample state the C constants name.
pub const SAMPLE_STATES_ALL: u32 = 0x0003;

/// Every view state the C constants name.
pub const VIEW_STATES_ALL: u32 = 0x0003;

/// Every instance state the C constants name.
pub const INSTANCE_STATES_ALL: u32 = 0x0007;

/// The sample, view and instance states a read selects, each as a set of
/// state bits.
#[derive(Debug, Clone, Copy, PartialEq, Eq, Structural)]
pub struct StateSelection {
    pub sample_states: u32,
    pub view_states: u32,
    pub instance_states: u32,
}

/// The states a mask names: its known bits, or every state for a zero mask.
pub open spec fn spec_states_or_any(mask: u32, all: u32) -> u32 {
    if mask == 0 {
        all
    } else {
        mask & all
    }
}

/// The states of the read and take calls: a zero mask selects every state of
/// its kind, any other mask the states whose bits it sets; unknown bits are
/// dropped.
pub fn state_kinds_from_masks(sample_state_mask: u32, view_state_mask: u32, instance_state_mask: u32) -> (r:
    StateSelection)
    ensures
        r.sample_states == spec_states_or_any(sample_state_mask, SAMPLE_STATES_ALL),
        r.view_states == spec_states_or_any(view_state_mask, VIEW_STATES_ALL),
        r.instance_states == spec_states_or_any(instance_state_mask, INSTANCE_STATES_ALL),
{
    StateSelection {
        sample_states: if sample_state_mask == 0 {
            SAMPLE_STATES_ALL
        } else {
            sample_state_mask & SAMPLE_STATES_ALL
        },
        view_states: if view_state_mask == 0 {
            VIEW_STATES_ALL
        } else {
            view_state_mask & VIEW_STATES_ALL
        },
        instance_states: if instance_state_mask == 0 {
            INSTANCE_STATES_ALL
        } else {
            instance_state_mask & INSTANCE_STATES_ALL
        },
    }
}

} // verus!
