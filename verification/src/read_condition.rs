//! Read and query conditions: the states a read condition selects, and the
//! query parameters handed over as C strings.

use vstd::prelude::*;

use crate::c_layout::CName;
use crate::error::{Int2DdsRet, INT2DDS_RET_INVALID_ARGUMENT};
use crate::qos::{names_view, partition_names, spec_partition_names};
use crate::subscriber::{StateSelection, INSTANCE_STATES_ALL, SAMPLE_STATES_ALL, VIEW_STATES_ALL};

verus! {

/// The states of a read condition: the states whose bits each mask sets;
/// unknown bits are dropped, and a zero mask selects no state.
pub fn state_masks(sample_state_mask: u32, view_state_mask: u32, instance_state_mask: u32) -> (r: StateSelection)
    ensures
        r.sample_states == sample_state_mask & SAMPLE_STATES_ALL,
        r.view_states == view_state_mask & VIEW_STATES_ALL,
        r.instance_states == instance_state_mask & INSTANCE_STATES_ALL,
{
    StateSelection {
        sample_states: sample_state_mask & SAMPLE_STATES_ALL,
        view_states: view_state_mask & VIEW_STATES_ALL,
        instance_states: instance_state_mask & INSTANCE_STATES_ALL,
    }
}

/// Read `count` C strings (`names` is `None` for a null array): none for a
/// zero count; a null array, a null string or one that is not UTF-8 is an
/// invalid argument.
pub fn collect_c_strings(count: usize, names: &Option<Vec<CName>>) -> (r: Result<Vec<String>, Int2DdsRet>)
    requires
        names matches Some(v) ==> v@.len() >= count,
    ensures
        match spec_partition_names(count, match names {
            Some(v) => Some(v@),
            None => None,
        }) {
            Ok(s) => r matches Ok(v) && names_view(v@) == s,
            Err(_) => r == Err::<Vec<String>, Int2DdsRet>(INT2DDS_RET_INVALID_ARGUMENT),
        },
{
    match partition_names(count, names) {
        Ok(v) => Ok(v),
        Err(_) => Err(INT2DDS_RET_INVALID_ARGUMENT),
    }
}

} // verus!
