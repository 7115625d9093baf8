//! Discovery helpers: instance-state selection, the per-instance snapshot of
//! builtin-topic samples, the wait schedule of a snapshot, builtin topic keys
//! and copying strings out to C buffers.

use vstd::prelude::*;
use vstd::bytes::spec_u32_to_le_bytes;
use vstd::string::StringSliceAdditionalSpecFns;

use crate::error::{Int2DdsRet, INT2DDS_RET_BUFFER_TOO_SMALL, INT2DDS_RET_OK};
use crate::subscriber::{
    INT2DDS_INSTANCE_STATE_ALIVE, INT2DDS_INSTANCE_STATE_NOT_ALIVE_DISPOSED,
    INT2DDS_INSTANCE_STATE_NOT_ALIVE_NO_WRITERS,
};

verus! {

/// Instance states a read can select on.
#[derive(Debug, Clone, Copy, PartialEq, Eq, Structural)]
pub enum InstanceStateKind {
    Alive,
    NotAliveDisposed,
    NotAliveNoWriters,
}

/// The states an `INT2DDS_INSTANCE_STATE_*` mask selects, in that order; an
/// empty selection falls back to alive.
pub open spec fn spec_instance_states(mask: u32) -> Seq<InstanceStateKind> {
    let a = if mask & INT2DDS_INSTANCE_STATE_ALIVE != 0 {
        seq![InstanceStateKind::Alive]
    } else {
        Seq::empty()
    };
    let d = if mask & INT2DDS_INSTANCE_STATE_NOT_ALIVE_DISPOSED != 0 {
        seq![InstanceStateKind::NotAliveDisposed]
    } else {
        Seq::empty()
    };
    let w = if mask & INT2DDS_INSTANCE_STATE_NOT_ALIVE_NO_WRITERS != 0 {
        seq![InstanceStateKind::NotAliveNoWriters]
    } else {
        Seq::empty()
    };
    let all = a + d + w;
    if all.len() == 0 {
        seq![InstanceStateKind::Alive]
    } else {
        all
    }
}

/// Translate an instance-state mask into the states a read selects on.
pub fn instance_states_from_mask(mask: u32) -> (r: Vec<InstanceStateKind>)
    ensures
        r@ == spec_instance_states(mask),
        r@.len() >= 1,
{
    let mut states: Vec<InstanceStateKind> = Vec::new();
    if mask & INT2DDS_INSTANCE_STATE_ALIVE != 0 {
        states.push(InstanceStateKind::Alive);
    }
    if mask & INT2DDS_INSTANCE_STATE_NOT_ALIVE_DISPOSED != 0 {
        states.push(InstanceStateKind::NotAliveDisposed);
    }
    if mask & INT2DDS_INSTANCE_STATE_NOT_ALIVE_NO_WRITERS != 0 {
        states.push(InstanceStateKind::NotAliveNoWriters);
    }
    if states.len() == 0 {
        states.push(InstanceStateKind::Alive);
    }
    assert(states@ =~= spec_instance_states(mask));
    states
}

/// One instance of a snapshot. `data` is absent for a dispose, which carries
/// no payload, so the handle is the only identity of a departure.
#[derive(Debug)]
pub struct SnapshotEntry<T> {
    pub data: Option<T>,
    pub instance_state: u32,
    pub instance_handle: [u8; 16],
}

/// No two entries of a snapshot share an instance handle.
pub open spec fn snapshot_wf<T>(entries: Seq<SnapshotEntry<T>>) -> bool {
    forall|i: int, j: int|
        0 <= i < entries.len() && 0 <= j < entries.len() && i != j ==> (#[trigger] entries[i]).instance_handle@
            != (#[trigger] entries[j]).instance_handle@
}

/// Index of the entry for an instance handle.
pub open spec fn snapshot_index<T>(entries: Seq<SnapshotEntry<T>>, handle: Seq<u8>) -> Option<int> {
    if exists|i: int| 0 <= i < entries.len() && #[trigger] entries[i].instance_handle@ == handle {
        Some(choose|i: int| 0 <= i < entries.len() && #[trigger] entries[i].instance_handle@ == handle)
    } else {
        None
    }
}

/// Whether two instance handles hold the same bytes.
pub fn same_handle(a: &[u8; 16], b: &[u8; 16]) -> (r: bool)
    ensures
        r == (a@ == b@),
{
    let mut i: usize = 0;
    while i < 16
        invariant
            i <= 16,
            a@.len() == 16,
            b@.len() == 16,
            forall|k: int| 0 <= k < i ==> a@[k] == b@[k],
        decreases 16 - i,
    {
        if a[i] != b[i] {
            return false;
        }
        i += 1;
    }
    assert(a@ =~= b@);
    true
}

/// Fold one sample into the snapshot, keyed by instance: the later sample
/// decides the instance state, and the payload is kept from whichever sample
/// had one.
pub fn merge_snapshot_sample<T>(
    entries: &mut Vec<SnapshotEntry<T>>,
    instance_handle: [u8; 16],
    instance_state: u32,
    data: Option<T>,
)
    requires
        snapshot_wf(old(entries)@),
    ensures
        snapshot_wf(final(entries)@),
        match snapshot_index(old(entries)@, instance_handle@) {
            Some(i) => final(entries)@ == old(entries)@.update(
                i,
                SnapshotEntry {
                    data: if data is Some {
                        data
                    } else {
                        old(entries)@[i].data
                    },
                    instance_state,
                    instance_handle: old(entries)@[i].instance_handle,
                },
            ),
            None => final(entries)@ == old(entries)@.push(
                SnapshotEntry { data, instance_state, instance_handle },
            ),
        },
{
    let mut i: usize = 0;
    while i < entries.len()
        invariant
            i <= entries@.len(),
            entries@ == old(entries)@,
            snapshot_wf(entries@),
            forall|k: int| 0 <= k < i ==> #[trigger] entries@[k].instance_handle@ != instance_handle@,
        decreases entries@.len() - i,
    {
        if same_handle(&entries[i].instance_handle, &instance_handle) {
            proof {
                let w = choose|w: int|
                    0 <= w < entries@.len() && #[trigger] entries@[w].instance_handle@ == instance_handle@;
                assert(entries@[i as int].instance_handle@ == instance_handle@);
                if w != i {
                    assert(entries@[w].instance_handle@ != entries@[i as int].instance_handle@);
                }
            }
            let old_entry = entries.remove(i);
            let kept = match data {
                Some(d) => Some(d),
                None => old_entry.data,
            };
            entries.insert(
                i,
                SnapshotEntry { data: kept, instance_state, instance_handle: old_entry.instance_handle },
            );
            proof {
                assert(entries@ =~= old(entries)@.update(
                    i as int,
                    SnapshotEntry {
                        data: if data is Some {
                            data
                        } else {
                            old(entries)@[i as int].data
                        },
                        instance_state,
                        instance_handle: old(entries)@[i as int].instance_handle,
                    },
                ));
            }
            return;
        }
        i += 1;
    }
    entries.push(SnapshotEntry { data, instance_state, instance_handle });
    proof {
        let n = old(entries)@.len() as int;
        assert forall|a: int, b: int|
            0 <= a < entries@.len() && 0 <= b < entries@.len() && a != b implies (#[trigger] entries@[a]).instance_handle@
            != (#[trigger] entries@[b]).instance_handle@ by {
            if a < n && b < n {
                assert(old(entries)@[a] == entries@[a] && old(entries)@[b] == entries@[b]);
            } else if a == n {
                assert(old(entries)@[b].instance_handle@ != instance_handle@);
            } else {
                assert(old(entries)@[a].instance_handle@ != instance_handle@);
            }
        }
    }
}

/// What a snapshot collection does after folding in a read.
#[derive(Debug, Clone, Copy, PartialEq, Eq, Structural)]
pub enum SnapshotAction {
    /// Stop and hand out the snapshot.
    Done,
    /// Wait on the data-available condition for the duration, then read again.
    Wait { sec: i32, nanosec: u32 },
}

/// The next step of a snapshot collection. Without a timeout (negative
/// `timeout_ms`) it stops once something was collected, else waits 200 ms;
/// with a timeout it stops once the deadline has passed, else waits the time
/// remaining, at most 200 ms.
pub fn snapshot_next_action(timeout_ms: i32, have_entries: bool, deadline_passed: bool, remaining_ms: u128) -> (r:
    SnapshotAction)
    ensures
        timeout_ms < 0 ==> r == (if have_entries {
            SnapshotAction::Done
        } else {
            SnapshotAction::Wait { sec: 0, nanosec: 200_000_000 }
        }),
        timeout_ms >= 0 && deadline_passed ==> r == SnapshotAction::Done,
        timeout_ms >= 0 && !deadline_passed ==> ({
            let w = if remaining_ms < 200 {
                remaining_ms
            } else {
                200
            };
            r == SnapshotAction::Wait { sec: 0, nanosec: (w * 1_000_000) as u32 }
        }),
{
    if timeout_ms < 0 {
        if have_entries {
            SnapshotAction::Done
        } else {
            SnapshotAction::Wait { sec: 0, nanosec: 200_000_000 }
        }
    } else if deadline_passed {
        SnapshotAction::Done
    } else {
        let wait_ms: i32 = if remaining_ms < 200 {
            remaining_ms as i32
        } else {
            200
        };
        SnapshotAction::Wait { sec: wait_ms / 1000, nanosec: ((wait_ms % 1000) as u32) * 1_000_000 }
    }
}

/// Big-endian bytes of a 32-bit value.
pub open spec fn be_bytes(x: i32) -> Seq<u8> {
    spec_u32_to_le_bytes(x as u32).reverse()
}

/// A builtin topic key (three `i32`) as twelve big-endian bytes.
pub fn builtin_topic_key_to_bytes(value: &[i32; 3]) -> (r: [u8; 12])
    ensures
        r@ == be_bytes(value@[0]) + be_bytes(value@[1]) + be_bytes(value@[2]),
{
    proof {
        vstd::bytes::lemma_auto_spec_u32_to_from_le_bytes();
    }
    let mut out: [u8; 12] = [0u8; 12];
    let mut k: usize = 0;
    while k < 3
        invariant
            k <= 3,
            value@.len() == 3,
            out@.len() == 12,
            forall|j: int| 0 <= j < 4 * k ==> out@[j] == be_bytes(value@[j / 4])[j % 4],
        decreases 3 - k,
    {
        let b = vstd::bytes::u32_to_le_bytes(value[k] as u32);
        out[4 * k] = b[3];
        out[4 * k + 1] = b[2];
        out[4 * k + 2] = b[1];
        out[4 * k + 3] = b[0];
        k += 1;
    }
    let ghost want = be_bytes(value@[0]) + be_bytes(value@[1]) + be_bytes(value@[2]);
    assert forall|j: int| 0 <= j < 12 implies out@[j] == want[j] by {
        assert(out@[j] == be_bytes(value@[j / 4])[j % 4]);
    }
    assert(out@ =~= want);
    out
}

/// Copying a string into a C buffer of `capacity` bytes (`has_buf` false for
/// a null buffer): the return code, the size required (bytes and NUL), and
/// the bytes to write. A null buffer or zero capacity is a size query; a
/// buffer too small gets nothing, never a truncated string.
pub fn copy_string_to_c(s: &str, has_buf: bool, capacity: usize) -> (r: (Int2DdsRet, usize, Option<Vec<u8>>))
    requires
        s.spec_bytes().len() < usize::MAX,
    ensures
        r.1 == s.spec_bytes().len() + 1,
        (!has_buf || capacity == 0) ==> r.0 == INT2DDS_RET_OK && r.2 is None,
        (has_buf && capacity != 0 && capacity < r.1) ==> r.0 == INT2DDS_RET_BUFFER_TOO_SMALL && r.2 is None,
        (has_buf && capacity != 0 && capacity >= r.1) ==> r.0 == INT2DDS_RET_OK && (r.2 matches Some(v) && v@
            == s.spec_bytes().push(0u8)),
{
    let bytes = s.as_bytes();
    let needed = bytes.len() + 1;
    if !has_buf || capacity == 0 {
        return (INT2DDS_RET_OK, needed, None);
    }
    if capacity < needed {
        return (INT2DDS_RET_BUFFER_TOO_SMALL, needed, None);
    }
    let mut out: Vec<u8> = Vec::new();
    let mut i: usize = 0;
    while i < bytes.len()
        invariant
            i <= bytes@.len(),
            out@ == bytes@.take(i as int),
        decreases bytes@.len() - i,
    {
        out.push(bytes[i]);
        i += 1;
        assert(out@ =~= bytes@.take(i as int));
    }
    out.push(0u8);
    assert(bytes@.take(i as int) =~= bytes@);
    (INT2DDS_RET_OK, needed, Some(out))
}

} // verus!
