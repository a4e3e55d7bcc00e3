use passenger_resource_management::application::ports::AdminEventSink;
use passenger_resource_management::domain::admin_event::{AdminAction, AdminEvent, TargetKind};
use passenger_resource_management::domain::crew_lead::CrewLeadId;
use passenger_resource_management::domain::timestamp::Timestamp;
use passenger_resource_management::infrastructure::hash_chain::{compute_hash, verify_chain};
use passenger_resource_management::infrastructure::in_memory_admin_event_sink::InMemoryAdminEventSink;

fn event(id: &str, action: AdminAction, kind: TargetKind, target: &str, ts: i64, details: Option<&str>) -> AdminEvent {
    AdminEvent {
        id: id.into(),
        actor_id: CrewLeadId::from("cl-1"),
        action,
        target_kind: kind,
        target_id: target.into(),
        timestamp: Timestamp(ts),
        details: details.map(|d| d.to_owned()),
    }
}

#[test]
fn compute_hash_matches_sha256_of_the_link_message() {
    let e = event("e1", AdminAction::CrewLeadBootstrapped, TargetKind::CrewLead, "cl-1", 7, None);
    assert_eq!(
        compute_hash("genesis", &e),
        "6bee9346cbaae84d49461b227a990c6bebd8081a064a03cd7ca1ee1fa12cfa59"
    );
}

#[test]
fn compute_hash_renders_negative_timestamps_and_details() {
    let mut e = event("e2", AdminAction::PassengerTierChanged, TargetKind::Passenger, "p-1", -42, Some("tier=Gold"));
    e.actor_id = CrewLeadId::from("cl-9");
    assert_eq!(
        compute_hash("genesis", &e),
        "f65a1962767c959fe77b7b66d912ee789292814831410b7e9dbbc2b249804f93"
    );
}

#[test]
fn appended_chain_verifies_and_links_follow_each_other() {
    let mut sink = InMemoryAdminEventSink::new();
    let a = event("e1", AdminAction::CrewLeadBootstrapped, TargetKind::CrewLead, "cl-1", 7, None);
    let b = event("e2", AdminAction::PassengerCreated, TargetKind::Passenger, "p-1", 8, Some("tier=Silver"));
    sink.append(a.clone());
    sink.append(b.clone());
    let entries = sink.snapshot_with_hashes();
    assert_eq!(entries.len(), 2);
    let first = compute_hash("genesis", &a);
    assert_eq!(entries[0].1, first);
    assert_eq!(entries[1].1, compute_hash(&first, &b));
    let check = verify_chain(&entries);
    assert!(check.valid);
    assert_eq!(check.length, 2);
    assert_eq!(check.broken_at, None);
}

#[test]
fn tampered_link_is_reported_at_its_index() {
    let mut sink = InMemoryAdminEventSink::new();
    for i in 0..3 {
        sink.append(event(&format!("e{i}"), AdminAction::ResourceCreated, TargetKind::Resource, "r", i, None));
    }
    sink.corrupt_hash_at(1, "deadbeef");
    let check = verify_chain(&sink.snapshot_with_hashes());
    assert!(!check.valid);
    assert_eq!(check.length, 3);
    assert_eq!(check.broken_at, Some(1));
}

#[test]
fn empty_stored_links_are_not_checked() {
    let a = event("e1", AdminAction::CrewLeadAdded, TargetKind::CrewLead, "cl-2", 1, None);
    let b = event("e2", AdminAction::CrewLeadRemoved, TargetKind::CrewLead, "cl-2", 2, None);
    let second = compute_hash(&compute_hash("genesis", &a), &b);
    let check = verify_chain(&[(a, String::new()), (b, second)]);
    assert!(check.valid);
    assert_eq!(check.broken_at, None);
}

#[test]
fn empty_chain_is_valid() {
    let check = verify_chain(&[]);
    assert!(check.valid);
    assert_eq!(check.length, 0);
}
