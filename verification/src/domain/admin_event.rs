//! Admin audit events.
use vstd::prelude::*;
use crate::domain::crew_lead::CrewLeadId;
use crate::domain::timestamp::Timestamp;

verus! {

/// The closed set of administrative mutations that emit an event.
#[derive(Debug, Clone, Copy, PartialEq, Eq, Hash)]
pub enum AdminAction {
    CrewLeadBootstrapped,
    CrewLeadAdded,
    CrewLeadRemoved,
    CrewLeadReplaced,
    PassengerCreated,
    PassengerTierChanged,
    PassengerDeleted,
    ResourceCreated,
    ResourceMinTierChanged,
    ResourceDeleted,
}

/// Kind of entity that `target_id` refers to.
#[derive(Debug, Clone, Copy, PartialEq, Eq, Hash)]
pub enum TargetKind {
    CrewLead,
    Passenger,
    Resource,
}

/// Append-only record of a successful administrative mutation.
#[derive(Debug, PartialEq, Eq)]
pub struct AdminEvent {
    /// UUID v4 assigned at emission.
    pub id: String,
    pub actor_id: CrewLeadId,
    pub action: AdminAction,
    pub target_kind: TargetKind,
    pub target_id: String,
    pub timestamp: Timestamp,
    /// Optional free-form context, e.g. `tier=Gold`.
    pub details: Option<String>,
}

impl Clone for AdminEvent {
    fn clone(&self) -> (r: Self)
        ensures
            r == *self,
    {
        let details = match &self.details {
            Some(d) => Some(d.clone()),
            None => None,
        };
        AdminEvent {
            id: self.id.clone(),
            actor_id: self.actor_id.clone(),
            action: self.action,
            target_kind: self.target_kind,
            target_id: self.target_id.clone(),
            timestamp: self.timestamp,
            details,
        }
    }
}

/// Hyphenated UUID text of version 4: 36 characters, `-` at offsets 8, 13,
/// 18 and 23, and the version digit `4` at offset 14.
pub open spec fn is_uuid_v4_text(s: Seq<char>) -> bool {
    &&& s.len() == 36
    &&& s[8] == '-'
    &&& s[13] == '-'
    &&& s[18] == '-'
    &&& s[23] == '-'
    &&& s[14] == '4'
}

/// `e` records `action` by `actor` on the `kind` entity `target`, with the
/// given details text, under a fresh UUID v4 id.
pub open spec fn records(
    e: AdminEvent,
    actor: CrewLeadId,
    action: AdminAction,
    kind: TargetKind,
    target: Seq<char>,
    details: Option<Seq<char>>,
) -> bool {
    &&& e.actor_id == actor
    &&& e.action == action
    &&& e.target_kind == kind
    &&& e.target_id@ == target
    &&& match details {
        Some(text) => e.details matches Some(d) && d@ == text,
        None => e.details is None,
    }
    &&& is_uuid_v4_text(e.id@)
}

/// `after` is `before` with one more event, which `records` the mutation;
/// or, when auditing is off, `after` is `before`.
pub open spec fn logged(
    before: Seq<AdminEvent>,
    after: Seq<AdminEvent>,
    audited: bool,
    actor: CrewLeadId,
    action: AdminAction,
    kind: TargetKind,
    target: Seq<char>,
    details: Option<Seq<char>>,
) -> bool {
    if audited {
        &&& after.len() == before.len() + 1
        &&& after.drop_last() == before
        &&& records(after.last(), actor, action, kind, target, details)
    } else {
        after == before
    }
}

} // verus!
