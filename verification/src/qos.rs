//! QoS settings of the C API: the policy-kind codes, durations given in
//! nanoseconds, and partition name lists.

use vstd::prelude::*;

use crate::c_layout::{spec_read_name, read_name, CName};
use crate::error::{Int2DdsRet, INT2DDS_RET_INVALID_ARGUMENT, INT2DDS_RET_NULL_POINTER};

verus! {

pub const INT2DDS_QOS_RELIABILITY_BEST_EFFORT: i32 = 0;

pub const INT2DDS_QOS_RELIABILITY_RELIABLE: i32 = 1;

pub const INT2DDS_QOS_DURABILITY_VOLATILE: i32 = 0;

pub const INT2DDS_QOS_DURABILITY_TRANSIENT_LOCAL: i32 = 1;

pub const INT2DDS_QOS_DURABILITY_TRANSIENT: i32 = 2;

pub const INT2DDS_QOS_DURABILITY_PERSISTENT: i32 = 3;

pub const INT2DDS_QOS_HISTORY_KEEP_LAST: i32 = 0;

pub const INT2DDS_QOS_HISTORY_KEEP_ALL: i32 = 1;

pub const INT2DDS_QOS_DATA_REPR_XCDR1: i32 = 0;

pub const INT2DDS_QOS_DATA_REPR_XCDR2: i32 = 2;

pub const INT2DDS_QOS_LIVELINESS_AUTOMATIC: i32 = 0;

pub const INT2DDS_QOS_LIVELINESS_MANUAL_BY_PARTICIPANT: i32 = 1;

pub const INT2DDS_QOS_LIVELINESS_MANUAL_BY_TOPIC: i32 = 2;

/// Reliability policy kinds.
#[derive(Debug, Clone, Copy, PartialEq, Eq, Structural)]
pub enum ReliabilityKind {
    BestEffort,
    Reliable,
}

/// Durability policy kinds.
#[derive(Debug, Clone, Copy, PartialEq, Eq, Structural)]
pub enum DurabilityKind {
    Volatile,
    TransientLocal,
    Transient,
    Persistent,
}

/// History policy kinds; keep-last carries its depth.
#[derive(Debug, Clone, Copy, PartialEq, Eq, Structural)]
pub enum HistoryKind {
    KeepLast(i32),
    KeepAll,
}

/// Data representations a writer or reader advertises.
#[derive(Debug, Clone, Copy, PartialEq, Eq, Structural)]
pub enum DataRepresentationId {
    Xcdr,
    Xcdr2,
}

/// Liveliness policy kinds.
#[derive(Debug, Clone, Copy, PartialEq, Eq, Structural)]
pub enum LivelinessKind {
    Automatic,
    ManualByParticipant,
    ManualByTopic,
}

/// A DDS duration: whole seconds and nanoseconds.
#[derive(Debug, Clone, Copy, PartialEq, Eq, Structural)]
pub struct Duration {
    pub sec: i32,
    pub nanosec: u32,
}

/// The reliability kind of a code.
pub fn reliability_kind_from_code(kind: i32) -> (r: Option<ReliabilityKind>)
    ensures
        r == (if kind == INT2DDS_QOS_RELIABILITY_BEST_EFFORT {
            Some(ReliabilityKind::BestEffort)
        } else if kind == INT2DDS_QOS_RELIABILITY_RELIABLE {
            Some(ReliabilityKind::Reliable)
        } else {
            None
        }),
{
    match kind {
        INT2DDS_QOS_RELIABILITY_BEST_EFFORT => Some(ReliabilityKind::BestEffort),
        INT2DDS_QOS_RELIABILITY_RELIABLE => Some(ReliabilityKind::Reliable),
        _ => None,
    }
}

/// The durability kind of a code.
pub fn durability_kind_from_code(kind: i32) -> (r: Option<DurabilityKind>)
    ensures
        r == (if kind == INT2DDS_QOS_DURABILITY_VOLATILE {
            Some(DurabilityKind::Volatile)
        } else if kind == INT2DDS_QOS_DURABILITY_TRANSIENT_LOCAL {
            Some(DurabilityKind::TransientLocal)
        } else if kind == INT2DDS_QOS_DURABILITY_TRANSIENT {
            Some(DurabilityKind::Transient)
        } else if kind == INT2DDS_QOS_DURABILITY_PERSISTENT {
            Some(DurabilityKind::Persistent)
        } else {
            None
        }),
{
    match kind {
        INT2DDS_QOS_DURABILITY_VOLATILE => Some(DurabilityKind::Volatile),
        INT2DDS_QOS_DURABILITY_TRANSIENT_LOCAL => Some(DurabilityKind::TransientLocal),
        INT2DDS_QOS_DURABILITY_TRANSIENT => Some(DurabilityKind::Transient),
        INT2DDS_QOS_DURABILITY_PERSISTENT => Some(DurabilityKind::Persistent),
        _ => None,
    }
}

/// The history kind of a code; keep-last takes the depth as given.
pub fn history_kind_from_code(kind: i32, depth: i32) -> (r: Option<HistoryKind>)
    ensures
        r == (if kind == INT2DDS_QOS_HISTORY_KEEP_LAST {
            Some(HistoryKind::KeepLast(depth))
        } else if kind == INT2DDS_QOS_HISTORY_KEEP_ALL {
            Some(HistoryKind::KeepAll)
        } else {
            None
        }),
{
    match kind {
        INT2DDS_QOS_HISTORY_KEEP_LAST => Some(HistoryKind::KeepLast(depth)),
        INT2DDS_QOS_HISTORY_KEEP_ALL => Some(HistoryKind::KeepAll),
        _ => None,
    }
}

/// The data representation of a code (XCDR1 is 0, XCDR2 is 2).
pub fn data_representation_from_code(kind: i32) -> (r: Option<DataRepresentationId>)
    ensures
        r == (if kind == INT2DDS_QOS_DATA_REPR_XCDR1 {
            Some(DataRepresentationId::Xcdr)
        } else if kind == INT2DDS_QOS_DATA_REPR_XCDR2 {
            Some(DataRepresentationId::Xcdr2)
        } else {
            None
        }),
{
    match kind {
        INT2DDS_QOS_DATA_REPR_XCDR1 => Some(DataRepresentationId::Xcdr),
        INT2DDS_QOS_DATA_REPR_XCDR2 => Some(DataRepresentationId::Xcdr2),
        _ => None,
    }
}

/// The liveliness kind of a code.
pub fn liveliness_kind_from_code(kind: i32) -> (r: Option<LivelinessKind>)
    ensures
        r == (if kind == INT2DDS_QOS_LIVELINESS_AUTOMATIC {
            Some(LivelinessKind::Automatic)
        } else if kind == INT2DDS_QOS_LIVELINESS_MANUAL_BY_PARTICIPANT {
            Some(LivelinessKind::ManualByParticipant)
        } else if kind == INT2DDS_QOS_LIVELINESS_MANUAL_BY_TOPIC {
            Some(LivelinessKind::ManualByTopic)
        } else {
            None
        }),
{
    match kind {
        INT2DDS_QOS_LIVELINESS_AUTOMATIC => Some(LivelinessKind::Automatic),
        INT2DDS_QOS_LIVELINESS_MANUAL_BY_PARTICIPANT => Some(LivelinessKind::ManualByParticipant),
        INT2DDS_QOS_LIVELINESS_MANUAL_BY_TOPIC => Some(LivelinessKind::ManualByTopic),
        _ => None,
    }
}

/// Whole seconds of a nanosecond count, rounded toward zero.
pub open spec fn ns_quotient(ns: int) -> int {
    if ns >= 0 {
        ns / 1_000_000_000
    } else {
        -((-ns) / 1_000_000_000)
    }
}

/// The nanoseconds left over, with the sign of the count.
pub open spec fn ns_remainder(ns: int) -> int {
    ns - ns_quotient(ns) * 1_000_000_000
}

/// A duration from a nanosecond count: the seconds truncated to `i32`, the
/// remainder reinterpreted as `u32` (a negative count leaves a wrapped,
/// out-of-range nanosecond field, as the C API has always done).
pub fn duration_from_nanos(ns: i64) -> (d: Duration)
    ensures
        d.sec == ns_quotient(ns as int) as i32,
        d.nanosec == ns_remainder(ns as int) as u32,
{
    let q: i64 = ns / 1_000_000_000;
    let r: i64 = ns % 1_000_000_000;
    assert(q as int == ns_quotient(ns as int) && r as int == ns_remainder(ns as int));
    Duration { sec: q as i32, nanosec: r as u32 }
}

/// A non-negative nanosecond count splits exactly into seconds and
/// nanoseconds when the seconds fit an `i32`.
pub proof fn law_duration_split(ns: i64)
    requires
        0 <= ns,
        ns / 1_000_000_000 <= i32::MAX,
    ensures
        (ns_quotient(ns as int) as i32) as int * 1_000_000_000 + (ns_remainder(ns as int) as u32) as int == ns,
        (ns_remainder(ns as int) as u32) < 1_000_000_000,
{
}

/// The reliability setting of a code and maximum blocking time; an unknown
/// code is an invalid argument.
pub fn reliability_setting(kind: i32, max_blocking_time_ns: i64) -> (r: Result<(ReliabilityKind, Duration), Int2DdsRet>)
    ensures
        match reliability_kind_from_code_spec(kind) {
            Some(k) => r matches Ok((rk, d)) && rk == k && d.sec == ns_quotient(max_blocking_time_ns as int) as i32
                && d.nanosec == ns_remainder(max_blocking_time_ns as int) as u32,
            None => r == Err::<(ReliabilityKind, Duration), Int2DdsRet>(INT2DDS_RET_INVALID_ARGUMENT),
        },
{
    match reliability_kind_from_code(kind) {
        Some(k) => Ok((k, duration_from_nanos(max_blocking_time_ns))),
        None => Err(INT2DDS_RET_INVALID_ARGUMENT),
    }
}

/// The reliability kind of a code, as a specification.
pub open spec fn reliability_kind_from_code_spec(kind: i32) -> Option<ReliabilityKind> {
    if kind == INT2DDS_QOS_RELIABILITY_BEST_EFFORT {
        Some(ReliabilityKind::BestEffort)
    } else if kind == INT2DDS_QOS_RELIABILITY_RELIABLE {
        Some(ReliabilityKind::Reliable)
    } else {
        None
    }
}

/// The liveliness setting of a code and lease duration; an unknown code is
/// an invalid argument.
pub fn liveliness_setting(kind: i32, lease_duration_ns: i64) -> (r: Result<(LivelinessKind, Duration), Int2DdsRet>)
    ensures
        kind == INT2DDS_QOS_LIVELINESS_AUTOMATIC || kind == INT2DDS_QOS_LIVELINESS_MANUAL_BY_PARTICIPANT || kind
            == INT2DDS_QOS_LIVELINESS_MANUAL_BY_TOPIC ==> (r matches Ok((k, d)) && d.sec == ns_quotient(
            lease_duration_ns as int,
        ) as i32 && d.nanosec == ns_remainder(lease_duration_ns as int) as u32 && (kind
            == INT2DDS_QOS_LIVELINESS_AUTOMATIC ==> k == LivelinessKind::Automatic) && (kind
            == INT2DDS_QOS_LIVELINESS_MANUAL_BY_PARTICIPANT ==> k == LivelinessKind::ManualByParticipant) && (kind
            == INT2DDS_QOS_LIVELINESS_MANUAL_BY_TOPIC ==> k == LivelinessKind::ManualByTopic)),
        !(kind == INT2DDS_QOS_LIVELINESS_AUTOMATIC || kind == INT2DDS_QOS_LIVELINESS_MANUAL_BY_PARTICIPANT || kind
            == INT2DDS_QOS_LIVELINESS_MANUAL_BY_TOPIC) ==> r == Err::<(LivelinessKind, Duration), Int2DdsRet>(
            INT2DDS_RET_INVALID_ARGUMENT,
        ),
{
    match liveliness_kind_from_code(kind) {
        Some(k) => Ok((k, duration_from_nanos(lease_duration_ns))),
        None => Err(INT2DDS_RET_INVALID_ARGUMENT),
    }
}

/// The partition names given as `count` C strings (`names` is `None` for a
/// null array): no names for a zero count, a null array or name is a null
/// pointer, a name that is not UTF-8 an invalid argument; names are checked
/// in order and the first failure is reported.
pub open spec fn spec_partition_names(count: usize, names: Option<Seq<CName>>) -> Result<Seq<Seq<char>>, Int2DdsRet> {
    if count == 0 {
        Ok(Seq::empty())
    } else {
        match names {
            None => Err(INT2DDS_RET_NULL_POINTER),
            Some(ns) => spec_partition_prefix(ns, count as nat),
        }
    }
}

/// The first `n` names read in order.
pub open spec fn spec_partition_prefix(ns: Seq<CName>, n: nat) -> Result<Seq<Seq<char>>, Int2DdsRet>
    decreases n,
{
    if n == 0 || n > ns.len() {
        Ok(Seq::empty())
    } else {
        match spec_partition_prefix(ns, (n - 1) as nat) {
            Err(e) => Err(e),
            Ok(prefix) => match spec_read_name(ns[n - 1]) {
                Err(e) => Err(e),
                Ok(s) => Ok(prefix.push(s)),
            },
        }
    }
}

/// The views of a list of owned names.
pub open spec fn names_view(v: Seq<String>) -> Seq<Seq<char>> {
    Seq::new(v.len(), |i: int| v[i]@)
}

/// Read the partition names of a publisher or subscriber QoS.
#[verifier::loop_isolation(false)]
pub fn partition_names(count: usize, names: &Option<Vec<CName>>) -> (r: Result<Vec<String>, Int2DdsRet>)
    requires
        names matches Some(v) ==> v@.len() >= count,
    ensures
        match spec_partition_names(count, match names {
            Some(v) => Some(v@),
            None => None,
        }) {
            Ok(s) => r matches Ok(v) && names_view(v@) == s,
            Err(e) => r == Err::<Vec<String>, Int2DdsRet>(e),
        },
{
    let mut out: Vec<String> = Vec::new();
    if count == 0 {
        assert(names_view(out@) =~= Seq::<Seq<char>>::empty());
        return Ok(out);
    }
    let v = match names {
        None => return Err(INT2DDS_RET_NULL_POINTER),
        Some(v) => v,
    };
    let mut i: usize = 0;
    assert(names_view(out@) =~= Seq::<Seq<char>>::empty());
    while i < count
        invariant
            i <= count,
            count <= v@.len(),
            out@.len() == i,
            spec_partition_prefix(v@, i as nat) == Ok::<Seq<Seq<char>>, Int2DdsRet>(names_view(out@)),
        decreases count - i,
    {
        match read_name(&v[i]) {
            Ok(s) => {
                let ghost prev = names_view(out@);
                out.push(s);
                assert(names_view(out@) =~= prev.push(out@[i as int]@));
            },
            Err(e) => {
                proof {
                    lemma_partition_prefix_err(v@, (i + 1) as nat, count as nat);
                }
                return Err(e);
            },
        }
        i += 1;
    }
    Ok(out)
}

/// Once reading the first `n` names fails, reading more fails the same way.
pub proof fn lemma_partition_prefix_err(ns: Seq<CName>, n: nat, m: nat)
    requires
        n <= m <= ns.len(),
        spec_partition_prefix(ns, n) is Err,
    ensures
        spec_partition_prefix(ns, m) == spec_partition_prefix(ns, n),
    decreases m - n,
{
    if n < m {
        lemma_partition_prefix_err(ns, n, (m - 1) as nat);
    }
}

} // verus!
