//! C status structures of DDS entity state changes, and the QoS policy ids
//! and rejection reasons they report.

use vstd::prelude::*;

verus! {

/// QoS policy identifiers as the DDS core reports them.
#[derive(Debug, Clone, Copy, PartialEq, Eq, Structural)]
pub enum QosPolicyId {
    Invalid,
    UserData,
    Durability,
    Presentation,
    Deadline,
    LatencyBudget,
    Ownership,
    OwnershipStrength,
    Liveliness,
    TimeBasedFilter,
    Partition,
    Reliability,
    DestinationOrder,
    History,
    ResourceLimits,
    EntityFactory,
    WriterDataLifecycle,
    ReaderDataLifecycle,
    TopicData,
    GroupData,
    TransportPriority,
    Lifespan,
    DurabilityService,
    DataRepresentation,
    TypeConsistencyEnforcement,
    Property,
}

/// QoS policy identifier of the C API (codes 0 through 25, in declaration order).
#[derive(Debug, Clone, Copy, PartialEq, Eq, Structural)]
pub enum Int2DdsQosPolicyId {
    Invalid,
    UserData,
    Durability,
    Presentation,
    Deadline,
    LatencyBudget,
    Ownership,
    OwnershipStrength,
    Liveliness,
    TimeBasedFilter,
    Partition,
    Reliability,
    DestinationOrder,
    History,
    ResourceLimits,
    EntityFactory,
    WriterDataLifecycle,
    ReaderDataLifecycle,
    TopicData,
    GroupData,
    TransportPriority,
    Lifespan,
    DurabilityService,
    DataRepresentation,
    TypeConsistencyEnforcement,
    Property,
}

/// The C code of a policy id: its position in the declaration.
pub open spec fn qos_policy_code(id: Int2DdsQosPolicyId) -> i32 {
    match id {
        Int2DdsQosPolicyId::Invalid => 0,
        Int2DdsQosPolicyId::UserData => 1,
        Int2DdsQosPolicyId::Durability => 2,
        Int2DdsQosPolicyId::Presentation => 3,
        Int2DdsQosPolicyId::Deadline => 4,
        Int2DdsQosPolicyId::LatencyBudget => 5,
        Int2DdsQosPolicyId::Ownership => 6,
        Int2DdsQosPolicyId::OwnershipStrength => 7,
        Int2DdsQosPolicyId::Liveliness => 8,
        Int2DdsQosPolicyId::TimeBasedFilter => 9,
        Int2DdsQosPolicyId::Partition => 10,
        Int2DdsQosPolicyId::Reliability => 11,
        Int2DdsQosPolicyId::DestinationOrder => 12,
        Int2DdsQosPolicyId::History => 13,
        Int2DdsQosPolicyId::ResourceLimits => 14,
        Int2DdsQosPolicyId::EntityFactory => 15,
        Int2DdsQosPolicyId::WriterDataLifecycle => 16,
        Int2DdsQosPolicyId::ReaderDataLifecycle => 17,
        Int2DdsQosPolicyId::TopicData => 18,
        Int2DdsQosPolicyId::GroupData => 19,
        Int2DdsQosPolicyId::TransportPriority => 20,
        Int2DdsQosPolicyId::Lifespan => 21,
        Int2DdsQosPolicyId::DurabilityService => 22,
        Int2DdsQosPolicyId::DataRepresentation => 23,
        Int2DdsQosPolicyId::TypeConsistencyEnforcement => 24,
        Int2DdsQosPolicyId::Property => 25,
    }
}

impl Int2DdsQosPolicyId {
    /// The C code of this policy id.
    pub fn code(&self) -> (c: i32)
        ensures
            c == qos_policy_code(*self),
    {
        match self {
            Int2DdsQosPolicyId::Invalid => 0,
            Int2DdsQosPolicyId::UserData => 1,
            Int2DdsQosPolicyId::Durability => 2,
            Int2DdsQosPolicyId::Presentation => 3,
            Int2DdsQosPolicyId::Deadline => 4,
            Int2DdsQosPolicyId::LatencyBudget => 5,
            Int2DdsQosPolicyId::Ownership => 6,
            Int2DdsQosPolicyId::OwnershipStrength => 7,
            Int2DdsQosPolicyId::Liveliness => 8,
            Int2DdsQosPolicyId::TimeBasedFilter => 9,
            Int2DdsQosPolicyId::Partition => 10,
            Int2DdsQosPolicyId::Reliability => 11,
            Int2DdsQosPolicyId::DestinationOrder => 12,
            Int2DdsQosPolicyId::History => 13,
            Int2DdsQosPolicyId::ResourceLimits => 14,
            Int2DdsQosPolicyId::EntityFactory => 15,
            Int2DdsQosPolicyId::WriterDataLifecycle => 16,
            Int2DdsQosPolicyId::ReaderDataLifecycle => 17,
            Int2DdsQosPolicyId::TopicData => 18,
            Int2DdsQosPolicyId::GroupData => 19,
            Int2DdsQosPolicyId::TransportPriority => 20,
            Int2DdsQosPolicyId::Lifespan => 21,
            Int2DdsQosPolicyId::DurabilityService => 22,
            Int2DdsQosPolicyId::DataRepresentation => 23,
            Int2DdsQosPolicyId::TypeConsistencyEnforcement => 24,
            Int2DdsQosPolicyId::Property => 25,
        }
    }
}

/// The C policy id of a core policy id: the variant of the same name.
pub open spec fn spec_policy_id_to_c(id: QosPolicyId) -> Int2DdsQosPolicyId {
    match id {
        QosPolicyId::Invalid => Int2DdsQosPolicyId::Invalid,
        QosPolicyId::UserData => Int2DdsQosPolicyId::UserData,
        QosPolicyId::Durability => Int2DdsQosPolicyId::Durability,
        QosPolicyId::Presentation => Int2DdsQosPolicyId::Presentation,
        QosPolicyId::Deadline => Int2DdsQosPolicyId::Deadline,
        QosPolicyId::LatencyBudget => Int2DdsQosPolicyId::LatencyBudget,
        QosPolicyId::Ownership => Int2DdsQosPolicyId::Ownership,
        QosPolicyId::OwnershipStrength => Int2DdsQosPolicyId::OwnershipStrength,
        QosPolicyId::Liveliness => Int2DdsQosPolicyId::Liveliness,
        QosPolicyId::TimeBasedFilter => Int2DdsQosPolicyId::TimeBasedFilter,
        QosPolicyId::Partition => Int2DdsQosPolicyId::Partition,
        QosPolicyId::Reliability => Int2DdsQosPolicyId::Reliability,
        QosPolicyId::DestinationOrder => Int2DdsQosPolicyId::DestinationOrder,
        QosPolicyId::History => Int2DdsQosPolicyId::History,
        QosPolicyId::ResourceLimits => Int2DdsQosPolicyId::ResourceLimits,
        QosPolicyId::EntityFactory => Int2DdsQosPolicyId::EntityFactory,
        QosPolicyId::WriterDataLifecycle => Int2DdsQosPolicyId::WriterDataLifecycle,
        QosPolicyId::ReaderDataLifecycle => Int2DdsQosPolicyId::ReaderDataLifecycle,
        QosPolicyId::TopicData => Int2DdsQosPolicyId::TopicData,
        QosPolicyId::GroupData => Int2DdsQosPolicyId::GroupData,
        QosPolicyId::TransportPriority => Int2DdsQosPolicyId::TransportPriority,
        QosPolicyId::Lifespan => Int2DdsQosPolicyId::Lifespan,
        QosPolicyId::DurabilityService => Int2DdsQosPolicyId::DurabilityService,
        QosPolicyId::DataRepresentation => Int2DdsQosPolicyId::DataRepresentation,
        QosPolicyId::TypeConsistencyEnforcement => Int2DdsQosPolicyId::TypeConsistencyEnforcement,
        QosPolicyId::Property => Int2DdsQosPolicyId::Property,
    }
}

impl vstd::std_specs::convert::FromSpecImpl<QosPolicyId> for Int2DdsQosPolicyId {
    open spec fn obeys_from_spec() -> bool {
        true
    }

    open spec fn from_spec(id: QosPolicyId) -> Self {
        spec_policy_id_to_c(id)
    }
}

impl From<QosPolicyId> for Int2DdsQosPolicyId {
    fn from(policy_id: QosPolicyId) -> (r: Self) {
        match policy_id {
            QosPolicyId::Invalid => Int2DdsQosPolicyId::Invalid,
            QosPolicyId::UserData => Int2DdsQosPolicyId::UserData,
            QosPolicyId::Durability => Int2DdsQosPolicyId::Durability,
            QosPolicyId::Presentation => Int2DdsQosPolicyId::Presentation,
            QosPolicyId::Deadline => Int2DdsQosPolicyId::Deadline,
            QosPolicyId::LatencyBudget => Int2DdsQosPolicyId::LatencyBudget,
            QosPolicyId::Ownership => Int2DdsQosPolicyId::Ownership,
            QosPolicyId::OwnershipStrength => Int2DdsQosPolicyId::OwnershipStrength,
            QosPolicyId::Liveliness => Int2DdsQosPolicyId::Liveliness,
            QosPolicyId::TimeBasedFilter => Int2DdsQosPolicyId::TimeBasedFilter,
            QosPolicyId::Partition => Int2DdsQosPolicyId::Partition,
            QosPolicyId::Reliability => Int2DdsQosPolicyId::Reliability,
            QosPolicyId::DestinationOrder => Int2DdsQosPolicyId::DestinationOrder,
            QosPolicyId::History => Int2DdsQosPolicyId::History,
            QosPolicyId::ResourceLimits => Int2DdsQosPolicyId::ResourceLimits,
            QosPolicyId::EntityFactory => Int2DdsQosPolicyId::EntityFactory,
            QosPolicyId::WriterDataLifecycle => Int2DdsQosPolicyId::WriterDataLifecycle,
            QosPolicyId::ReaderDataLifecycle => Int2DdsQosPolicyId::ReaderDataLifecycle,
            QosPolicyId::TopicData => Int2DdsQosPolicyId::TopicData,
            QosPolicyId::GroupData => Int2DdsQosPolicyId::GroupData,
            QosPolicyId::TransportPriority => Int2DdsQosPolicyId::TransportPriority,
            QosPolicyId::Lifespan => Int2DdsQosPolicyId::Lifespan,
            QosPolicyId::DurabilityService => Int2DdsQosPolicyId::DurabilityService,
            QosPolicyId::DataRepresentation => Int2DdsQosPolicyId::DataRepresentation,
            QosPolicyId::TypeConsistencyEnforcement => Int2DdsQosPolicyId::TypeConsistencyEnforcement,
            QosPolicyId::Property => Int2DdsQosPolicyId::Property,
        }
    }
}

/// Converting keeps the policy: two core policy ids with one C code are one
/// policy.
pub proof fn law_policy_id_codes_distinct(a: QosPolicyId, b: QosPolicyId)
    ensures
        qos_policy_code(spec_policy_id_to_c(a)) == qos_policy_code(spec_policy_id_to_c(b)) ==> a == b,
{
}

/// Why the last sample was rejected, as the DDS core reports it.
#[derive(Debug, Clone, Copy, PartialEq, Eq, Structural)]
pub enum SampleRejectedStatusKind {
    NotRejected,
    RejectedByInstancesLimit,
    RejectedBySamplesLimit,
    RejectedBySamplesPerInstanceLimit,
}

/// Rejection reason of the C API (codes 0 through 3).
#[derive(Debug, Clone, Copy, PartialEq, Eq, Structural)]
pub enum Int2DdsSampleRejectedStatusKind {
    NotRejected,
    RejectedByInstancesLimit,
    RejectedBySamplesLimit,
    RejectedBySamplesPerInstanceLimit,
}

impl Int2DdsSampleRejectedStatusKind {
    /// The C code of this reason.
    pub fn code(&self) -> (c: i32)
        ensures
            c == match *self {
                Int2DdsSampleRejectedStatusKind::NotRejected => 0i32,
                Int2DdsSampleRejectedStatusKind::RejectedByInstancesLimit => 1i32,
                Int2DdsSampleRejectedStatusKind::RejectedBySamplesLimit => 2i32,
                Int2DdsSampleRejectedStatusKind::RejectedBySamplesPerInstanceLimit => 3i32,
            },
    {
        match self {
            Int2DdsSampleRejectedStatusKind::NotRejected => 0,
            Int2DdsSampleRejectedStatusKind::RejectedByInstancesLimit => 1,
            Int2DdsSampleRejectedStatusKind::RejectedBySamplesLimit => 2,
            Int2DdsSampleRejectedStatusKind::RejectedBySamplesPerInstanceLimit => 3,
        }
    }
}

/// The C rejection reason of a core one: the variant of the same name.
pub open spec fn spec_rejected_kind_to_c(kind: SampleRejectedStatusKind) -> Int2DdsSampleRejectedStatusKind {
    match kind {
        SampleRejectedStatusKind::NotRejected => Int2DdsSampleRejectedStatusKind::NotRejected,
        SampleRejectedStatusKind::RejectedByInstancesLimit => Int2DdsSampleRejectedStatusKind::RejectedByInstancesLimit,
        SampleRejectedStatusKind::RejectedBySamplesLimit => Int2DdsSampleRejectedStatusKind::RejectedBySamplesLimit,
        SampleRejectedStatusKind::RejectedBySamplesPerInstanceLimit => Int2DdsSampleRejectedStatusKind::RejectedBySamplesPerInstanceLimit,
    }
}

impl vstd::std_specs::convert::FromSpecImpl<SampleRejectedStatusKind> for Int2DdsSampleRejectedStatusKind {
    open spec fn obeys_from_spec() -> bool {
        true
    }

    open spec fn from_spec(kind: SampleRejectedStatusKind) -> Self {
        spec_rejected_kind_to_c(kind)
    }
}

impl From<SampleRejectedStatusKind> for Int2DdsSampleRejectedStatusKind {
    fn from(kind: SampleRejectedStatusKind) -> (r: Self) {
        match kind {
            SampleRejectedStatusKind::NotRejected => Int2DdsSampleRejectedStatusKind::NotRejected,
            SampleRejectedStatusKind::RejectedByInstancesLimit => Int2DdsSampleRejectedStatusKind::RejectedByInstancesLimit,
            SampleRejectedStatusKind::RejectedBySamplesLimit => Int2DdsSampleRejectedStatusKind::RejectedBySamplesLimit,
            SampleRejectedStatusKind::RejectedBySamplesPerInstanceLimit => {
                Int2DdsSampleRejectedStatusKind::RejectedBySamplesPerInstanceLimit
            },
        }
    }
}

/// Publication matched status.
#[derive(Debug, Clone, Copy)]
pub struct Int2DdsPublicationMatchedStatus {
    /// Total cumulative count of DataReaders that matched.
    pub total_count: i32,
    /// Change in `total_count` since last access.
    pub total_count_change: i32,
    /// Current number of matched DataReaders.
    pub current_count: i32,
    /// Change in `current_count` since last access.
    pub current_count_change: i32,
    /// Handle of the last matched DataReader.
    pub last_subscription_handle: [u8; 16],
}

/// Subscription matched status.
#[derive(Debug, Clone, Copy)]
pub struct Int2DdsSubscriptionMatchedStatus {
    /// Total cumulative count of DataWriters that matched.
    pub total_count: i32,
    /// Change in `total_count` since last access.
    pub total_count_change: i32,
    /// Current number of matched DataWriters.
    pub current_count: i32,
    /// Change in `current_count` since last access.
    pub current_count_change: i32,
    /// Handle of the last matched DataWriter.
    pub last_publication_handle: [u8; 16],
}

/// Sample rejected status.
#[derive(Debug, Clone, Copy)]
pub struct Int2DdsSampleRejectedStatus {
    /// Total cumulative count of samples rejected.
    pub total_count: i32,
    /// Change in `total_count` since last access.
    pub total_count_change: i32,
    /// Reason for the last rejection.
    pub last_reason: Int2DdsSampleRejectedStatusKind,
    /// Handle of the instance of the last rejected sample.
    pub last_instance_handle: [u8; 16],
}

/// Liveliness changed status.
#[derive(Debug, Clone, Copy)]
pub struct Int2DdsLivelinessChangedStatus {
    /// Current count of alive DataWriters.
    pub alive_count: i32,
    /// Current count of not-alive DataWriters.
    pub not_alive_count: i32,
    /// Change in `alive_count` since last access.
    pub alive_count_change: i32,
    /// Change in `not_alive_count` since last access.
    pub not_alive_count_change: i32,
    /// Handle of the last DataWriter whose liveliness changed.
    pub last_publication_handle: [u8; 16],
}

/// Requested deadline missed status.
#[derive(Debug, Clone, Copy)]
pub struct Int2DdsRequestedDeadlineMissedStatus {
    /// Total cumulative count of missed deadlines.
    pub total_count: i32,
    /// Change in `total_count` since last access.
    pub total_count_change: i32,
    /// Handle of the last instance whose deadline was missed.
    pub last_instance_handle: [u8; 16],
}

/// Count of incompatibilities of one QoS policy.
#[derive(Debug, Clone, Copy)]
pub struct Int2DdsQosPolicyCount {
    /// The policy.
    pub policy_id: Int2DdsQosPolicyId,
    /// Count of incompatibilities for it.
    pub count: i32,
}

/// Requested incompatible QoS status; the per-policy list is not exposed,
/// so `policies_count` is always 0.
#[derive(Debug, Clone, Copy)]
pub struct Int2DdsRequestedIncompatibleQosStatus {
    /// Total cumulative count of incompatible QoS.
    pub total_count: i32,
    /// Change in `total_count` since last access.
    pub total_count_change: i32,
    /// The last incompatible policy.
    pub last_policy_id: Int2DdsQosPolicyId,
    /// Number of per-policy counts (always 0).
    pub policies_count: u32,
}

/// Sample lost status.
#[derive(Debug, Clone, Copy)]
pub struct Int2DdsSampleLostStatus {
    /// Total cumulative count of samples lost.
    pub total_count: i32,
    /// Change in `total_count` since last access.
    pub total_count_change: i32,
}

/// Offered deadline missed status.
#[derive(Debug, Clone, Copy)]
pub struct Int2DdsOfferedDeadlineMissedStatus {
    /// Total cumulative count of missed deadlines.
    pub total_count: i32,
    /// Change in `total_count` since last access.
    pub total_count_change: i32,
    /// Handle of the last instance whose deadline was missed.
    pub last_instance_handle: [u8; 16],
}

/// Offered incompatible QoS status; the per-policy list is not exposed, so
/// `policies_count` is always 0.
#[derive(Debug, Clone, Copy)]
pub struct Int2DdsOfferedIncompatibleQosStatus {
    /// Total cumulative count of incompatible QoS.
    pub total_count: i32,
    /// Change in `total_count` since last access.
    pub total_count_change: i32,
    /// The last incompatible policy.
    pub last_policy_id: Int2DdsQosPolicyId,
    /// Number of per-policy counts (always 0).
    pub policies_count: u32,
}

/// Liveliness lost status.
#[derive(Debug, Clone, Copy)]
pub struct Int2DdsLivelinessLostStatus {
    /// Total cumulative count of times liveliness was lost.
    pub total_count: i32,
    /// Change in `total_count` since last access.
    pub total_count_change: i32,
}

/// The incompatible-QoS status reported to a reader: the counts and last
/// policy, with no per-policy list.
pub fn requested_incompatible_qos_status(
    total_count: i32,
    total_count_change: i32,
    last_policy_id: QosPolicyId,
) -> (r: Int2DdsRequestedIncompatibleQosStatus)
    ensures
        r.total_count == total_count,
        r.total_count_change == total_count_change,
        r.last_policy_id == spec_policy_id_to_c(last_policy_id),
        r.policies_count == 0,
{
    Int2DdsRequestedIncompatibleQosStatus {
        total_count,
        total_count_change,
        last_policy_id: Int2DdsQosPolicyId::from(last_policy_id),
        policies_count: 0,
    }
}

/// The incompatible-QoS status reported to a writer: the counts and last
/// policy, with no per-policy list.
pub fn offered_incompatible_qos_status(
    total_count: i32,
    total_count_change: i32,
    last_policy_id: QosPolicyId,
) -> (r: Int2DdsOfferedIncompatibleQosStatus)
    ensures
        r.total_count == total_count,
        r.total_count_change == total_count_change,
        r.last_policy_id == spec_policy_id_to_c(last_policy_id),
        r.policies_count == 0,
{
    Int2DdsOfferedIncompatibleQosStatus {
        total_count,
        total_count_change,
        last_policy_id: Int2DdsQosPolicyId::from(last_policy_id),
        policies_count: 0,
    }
}

/// The rejected-sample status: counts, the reason converted, the handle.
pub fn sample_rejected_status(
    total_count: i32,
    total_count_change: i32,
    last_reason: SampleRejectedStatusKind,
    last_instance_handle: [u8; 16],
) -> (r: Int2DdsSampleRejectedStatus)
    ensures
        r.total_count == total_count,
        r.total_count_change == total_count_change,
        r.last_reason == spec_rejected_kind_to_c(last_reason),
        r.last_instance_handle == last_instance_handle,
{
    Int2DdsSampleRejectedStatus {
        total_count,
        total_count_change,
        last_reason: Int2DdsSampleRejectedStatusKind::from(last_reason),
        last_instance_handle,
    }
}

} // verus!
