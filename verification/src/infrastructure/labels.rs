//! Text labels for the enums that storage adapters persist, and their
//! parsers. Each label is also the enum variant's `Debug` rendering.
use vstd::prelude::*;
use crate::domain::admin_event::{AdminAction, TargetKind};
use crate::domain::text::{owned, str_equals};
use crate::domain::tier::{Tier, tier_name, tier_named, lemma_tier_name_round_trip};
use crate::domain::usage_event::Outcome;

verus! {

/// A stored label that names no variant. Holds the rejected text.
#[derive(Debug, PartialEq, Eq)]
pub struct UnknownLabel(pub String);

pub open spec fn outcome_name(o: Outcome) -> Seq<char> {
    match o {
        Outcome::Allowed => "Allowed"@,
        Outcome::Denied => "Denied"@,
    }
}

pub open spec fn outcome_named(s: Seq<char>) -> Option<Outcome> {
    if s == "Allowed"@ {
        Some(Outcome::Allowed)
    } else if s == "Denied"@ {
        Some(Outcome::Denied)
    } else {
        None
    }
}

pub open spec fn action_name(a: AdminAction) -> Seq<char> {
    match a {
        AdminAction::CrewLeadBootstrapped => "CrewLeadBootstrapped"@,
        AdminAction::CrewLeadAdded => "CrewLeadAdded"@,
        AdminAction::CrewLeadRemoved => "CrewLeadRemoved"@,
        AdminAction::CrewLeadReplaced => "CrewLeadReplaced"@,
        AdminAction::PassengerCreated => "PassengerCreated"@,
        AdminAction::PassengerTierChanged => "PassengerTierChanged"@,
        AdminAction::PassengerDeleted => "PassengerDeleted"@,
        AdminAction::ResourceCreated => "ResourceCreated"@,
        AdminAction::ResourceMinTierChanged => "ResourceMinTierChanged"@,
        AdminAction::ResourceDeleted => "ResourceDeleted"@,
    }
}

pub open spec fn action_named(s: Seq<char>) -> Option<AdminAction> {
    if s == "CrewLeadBootstrapped"@ {
        Some(AdminAction::CrewLeadBootstrapped)
    } else if s == "CrewLeadAdded"@ {
        Some(AdminAction::CrewLeadAdded)
    } else if s == "CrewLeadRemoved"@ {
        Some(AdminAction::CrewLeadRemoved)
    } else if s == "CrewLeadReplaced"@ {
        Some(AdminAction::CrewLeadReplaced)
    } else if s == "PassengerCreated"@ {
        Some(AdminAction::PassengerCreated)
    } else if s == "PassengerTierChanged"@ {
        Some(AdminAction::PassengerTierChanged)
    } else if s == "PassengerDeleted"@ {
        Some(AdminAction::PassengerDeleted)
    } else if s == "ResourceCreated"@ {
        Some(AdminAction::ResourceCreated)
    } else if s == "ResourceMinTierChanged"@ {
        Some(AdminAction::ResourceMinTierChanged)
    } else if s == "ResourceDeleted"@ {
        Some(AdminAction::ResourceDeleted)
    } else {
        None
    }
}

pub open spec fn kind_name(k: TargetKind) -> Seq<char> {
    match k {
        TargetKind::CrewLead => "CrewLead"@,
        TargetKind::Passenger => "Passenger"@,
        TargetKind::Resource => "Resource"@,
    }
}

pub open spec fn kind_named(s: Seq<char>) -> Option<TargetKind> {
    if s == "CrewLead"@ {
        Some(TargetKind::CrewLead)
    } else if s == "Passenger"@ {
        Some(TargetKind::Passenger)
    } else if s == "Resource"@ {
        Some(TargetKind::Resource)
    } else {
        None
    }
}

pub fn tier_to_str(t: Tier) -> (s: &'static str)
    ensures
        s@ == tier_name(t),
{
    match t {
        Tier::Silver => "Silver",
        Tier::Gold => "Gold",
        Tier::Diamond => "Diamond",
        Tier::Platinum => "Platinum",
    }
}

pub fn tier_from_str(s: &str) -> (r: Result<Tier, UnknownLabel>)
    ensures
        match tier_named(s@) {
            Some(t) => r == Ok::<Tier, UnknownLabel>(t),
            None => r matches Err(e) && e.0@ == s@,
        },
{
    if str_equals(s, "Silver") {
        Ok(Tier::Silver)
    } else if str_equals(s, "Gold") {
        Ok(Tier::Gold)
    } else if str_equals(s, "Diamond") {
        Ok(Tier::Diamond)
    } else if str_equals(s, "Platinum") {
        Ok(Tier::Platinum)
    } else {
        Err(UnknownLabel(owned(s)))
    }
}

pub fn outcome_to_str(o: Outcome) -> (s: &'static str)
    ensures
        s@ == outcome_name(o),
{
    match o {
        Outcome::Allowed => "Allowed",
        Outcome::Denied => "Denied",
    }
}

pub fn outcome_from_str(s: &str) -> (r: Result<Outcome, UnknownLabel>)
    ensures
        match outcome_named(s@) {
            Some(o) => r == Ok::<Outcome, UnknownLabel>(o),
            None => r matches Err(e) && e.0@ == s@,
        },
{
    if str_equals(s, "Allowed") {
        Ok(Outcome::Allowed)
    } else if str_equals(s, "Denied") {
        Ok(Outcome::Denied)
    } else {
        Err(UnknownLabel(owned(s)))
    }
}

pub fn action_to_str(a: AdminAction) -> (s: &'static str)
    ensures
        s@ == action_name(a),
{
    match a {
        AdminAction::CrewLeadBootstrapped => "CrewLeadBootstrapped",
        AdminAction::CrewLeadAdded => "CrewLeadAdded",
        AdminAction::CrewLeadRemoved => "CrewLeadRemoved",
        AdminAction::CrewLeadReplaced => "CrewLeadReplaced",
        AdminAction::PassengerCreated => "PassengerCreated",
        AdminAction::PassengerTierChanged => "PassengerTierChanged",
        AdminAction::PassengerDeleted => "PassengerDeleted",
        AdminAction::ResourceCreated => "ResourceCreated",
        AdminAction::ResourceMinTierChanged => "ResourceMinTierChanged",
        AdminAction::ResourceDeleted => "ResourceDeleted",
    }
}

pub fn action_from_str(s: &str) -> (r: Result<AdminAction, UnknownLabel>)
    ensures
        match action_named(s@) {
            Some(a) => r == Ok::<AdminAction, UnknownLabel>(a),
            None => r matches Err(e) && e.0@ == s@,
        },
{
    if str_equals(s, "CrewLeadBootstrapped") {
        Ok(AdminAction::CrewLeadBootstrapped)
    } else if str_equals(s, "CrewLeadAdded") {
        Ok(AdminAction::CrewLeadAdded)
    } else if str_equals(s, "CrewLeadRemoved") {
        Ok(AdminAction::CrewLeadRemoved)
    } else if str_equals(s, "CrewLeadReplaced") {
        Ok(AdminAction::CrewLeadReplaced)
    } else if str_equals(s, "PassengerCreated") {
        Ok(AdminAction::PassengerCreated)
    } else if str_equals(s, "PassengerTierChanged") {
        Ok(AdminAction::PassengerTierChanged)
    } else if str_equals(s, "PassengerDeleted") {
        Ok(AdminAction::PassengerDeleted)
    } else if str_equals(s, "ResourceCreated") {
        Ok(AdminAction::ResourceCreated)
    } else if str_equals(s, "ResourceMinTierChanged") {
        Ok(AdminAction::ResourceMinTierChanged)
    } else if str_equals(s, "ResourceDeleted") {
        Ok(AdminAction::ResourceDeleted)
    } else {
        Err(UnknownLabel(owned(s)))
    }
}

pub fn kind_to_str(k: TargetKind) -> (s: &'static str)
    ensures
        s@ == kind_name(k),
{
    match k {
        TargetKind::CrewLead => "CrewLead",
        TargetKind::Passenger => "Passenger",
        TargetKind::Resource => "Resource",
    }
}

pub fn kind_from_str(s: &str) -> (r: Result<TargetKind, UnknownLabel>)
    ensures
        match kind_named(s@) {
            Some(k) => r == Ok::<TargetKind, UnknownLabel>(k),
            None => r matches Err(e) && e.0@ == s@,
        },
{
    if str_equals(s, "CrewLead") {
        Ok(TargetKind::CrewLead)
    } else if str_equals(s, "Passenger") {
        Ok(TargetKind::Passenger)
    } else if str_equals(s, "Resource") {
        Ok(TargetKind::Resource)
    } else {
        Err(UnknownLabel(owned(s)))
    }
}

/// Every stored label reads back as the value that wrote it.
pub proof fn lemma_labels_round_trip(t: Tier, o: Outcome, a: AdminAction, k: TargetKind)
    ensures
        tier_named(tier_name(t)) == Some(t),
        outcome_named(outcome_name(o)) == Some(o),
        action_named(action_name(a)) == Some(a),
        kind_named(kind_name(k)) == Some(k),
{
    lemma_tier_name_round_trip(t);
    reveal_strlit("Allowed");
    reveal_strlit("Denied");
    reveal_strlit("CrewLead");
    reveal_strlit("Passenger");
    reveal_strlit("Resource");
    reveal_strlit("CrewLeadBootstrapped");
    reveal_strlit("CrewLeadAdded");
    reveal_strlit("CrewLeadRemoved");
    reveal_strlit("CrewLeadReplaced");
    reveal_strlit("PassengerCreated");
    reveal_strlit("PassengerTierChanged");
    reveal_strlit("PassengerDeleted");
    reveal_strlit("ResourceCreated");
    reveal_strlit("ResourceMinTierChanged");
    reveal_strlit("ResourceDeleted");
    assert("Allowed"@.len() != "Denied"@.len());
    assert("CrewLead"@.len() == 8 && "Passenger"@.len() == 9 && "Resource"@.len() == 8);
    assert("CrewLead"@[0] != "Resource"@[0]);
    assert("CrewLeadBootstrapped"@[0] != "PassengerTierChanged"@[0]);
    assert("CrewLeadRemoved"@[0] != "ResourceCreated"@[0]);
    assert("CrewLeadRemoved"@[0] != "ResourceDeleted"@[0]);
    assert("ResourceCreated"@[8] != "ResourceDeleted"@[8]);
    assert("CrewLeadReplaced"@[0] != "PassengerCreated"@[0]);
    assert("CrewLeadReplaced"@[0] != "PassengerDeleted"@[0]);
    assert("PassengerCreated"@[9] != "PassengerDeleted"@[9]);
    assert("CrewLeadAdded"@.len() == 13 && "ResourceMinTierChanged"@.len() == 22);
    assert("CrewLeadBootstrapped"@.len() == 20 && "PassengerTierChanged"@.len() == 20);
    assert("CrewLeadRemoved"@.len() == 15 && "ResourceCreated"@.len() == 15);
    assert("ResourceDeleted"@.len() == 15);
    assert("CrewLeadReplaced"@.len() == 16 && "PassengerCreated"@.len() == 16);
    assert("PassengerDeleted"@.len() == 16);
}

/// Every stored label is the name of the variant it stands for (its `Debug`
/// rendering): an event created on a passenger is stored and hashed as
/// `PassengerCreated`, a deletion as `PassengerDeleted`, and so on.
pub proof fn lemma_labels_are_variant_names()
    ensures
        tier_name(Tier::Silver) == "Silver"@,
        tier_name(Tier::Gold) == "Gold"@,
        tier_name(Tier::Diamond) == "Diamond"@,
        tier_name(Tier::Platinum) == "Platinum"@,
        outcome_name(Outcome::Allowed) == "Allowed"@,
        outcome_name(Outcome::Denied) == "Denied"@,
        kind_name(TargetKind::CrewLead) == "CrewLead"@,
        kind_name(TargetKind::Passenger) == "Passenger"@,
        kind_name(TargetKind::Resource) == "Resource"@,
        action_name(AdminAction::CrewLeadBootstrapped) == "CrewLeadBootstrapped"@,
        action_name(AdminAction::CrewLeadAdded) == "CrewLeadAdded"@,
        action_name(AdminAction::CrewLeadRemoved) == "CrewLeadRemoved"@,
        action_name(AdminAction::CrewLeadReplaced) == "CrewLeadReplaced"@,
        action_name(AdminAction::PassengerCreated) == "PassengerCreated"@,
        action_name(AdminAction::PassengerTierChanged) == "PassengerTierChanged"@,
        action_name(AdminAction::PassengerDeleted) == "PassengerDeleted"@,
        action_name(AdminAction::ResourceCreated) == "ResourceCreated"@,
        action_name(AdminAction::ResourceMinTierChanged) == "ResourceMinTierChanged"@,
        action_name(AdminAction::ResourceDeleted) == "ResourceDeleted"@,
        action_named("PassengerCreated"@) == Some(AdminAction::PassengerCreated),
        action_named("PassengerDeleted"@) == Some(AdminAction::PassengerDeleted),
        outcome_named("Allowed"@) == Some(Outcome::Allowed),
        outcome_named("Denied"@) == Some(Outcome::Denied),
{
    lemma_labels_round_trip(Tier::Silver, Outcome::Allowed, AdminAction::PassengerCreated, TargetKind::Passenger);
    lemma_labels_round_trip(Tier::Silver, Outcome::Denied, AdminAction::PassengerDeleted, TargetKind::Passenger);
}

} // verus!
