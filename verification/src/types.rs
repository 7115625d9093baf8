//! Plain C-visible records: the participant factory handle and sample info.

use vstd::prelude::*;

verus! {

/// The participant factory handle handed to C.
#[derive(Debug)]
pub struct Int2DdsParticipantFactory {
    /// Set once the factory has been obtained.
    pub initialized: bool,
}

impl Int2DdsParticipantFactory {
    /// The factory as handed out by `get_instance`: initialized.
    pub fn get_instance() -> (r: Self)
        ensures
            r.initialized,
    {
        Int2DdsParticipantFactory { initialized: true }
    }
}

/// Sample metadata in C layout; states are the `INT2DDS_*_STATE_*` bits.
#[derive(Debug, Clone)]
pub struct Int2DdsSampleInfo {
    pub source_timestamp_sec: i32,
    pub source_timestamp_nanosec: u32,
    pub sample_state: u32,
    pub view_state: u32,
    pub instance_state: u32,
    pub instance_handle: [u8; 16],
    pub publication_handle: [u8; 16],
    pub disposed_generation_count: i32,
    pub no_writers_generation_count: i32,
    pub sample_rank: i32,
    pub generation_rank: i32,
    pub absolute_generation_rank: i32,
    pub valid_data: bool,
}

} // verus!
