//! Usage event: the append-only record of one access attempt.
use vstd::prelude::*;
use crate::domain::passenger::PassengerId;
use crate::domain::resource::ResourceId;
use crate::domain::tier::Tier;
use crate::domain::timestamp::Timestamp;

verus! {

#[derive(Debug, Clone, Copy, PartialEq, Eq, Hash, Structural)]
pub enum Outcome {
    Allowed,
    Denied,
}

/// One access attempt. The tier of the passenger and the minimum tier of the
/// resource are snapshots taken at the attempt and never rewritten.
#[derive(Debug, PartialEq, Eq)]
pub struct UsageEvent {
    /// UUID v4 assigned at emission.
    pub id: String,
    pub passenger_id: PassengerId,
    pub resource_id: ResourceId,
    pub tier_at_attempt: Tier,
    pub min_tier_at_attempt: Tier,
    pub timestamp: Timestamp,
    /// A `Denied` event is stored as well: it records the failed attempt.
    pub outcome: Outcome,
}

impl Clone for UsageEvent {
    fn clone(&self) -> (r: Self)
        ensures
            r == *self,
    {
        UsageEvent {
            id: self.id.clone(),
            passenger_id: self.passenger_id.clone(),
            resource_id: self.resource_id.clone(),
            tier_at_attempt: self.tier_at_attempt,
            min_tier_at_attempt: self.min_tier_at_attempt,
            timestamp: self.timestamp,
            outcome: self.outcome,
        }
    }
}

} // verus!
