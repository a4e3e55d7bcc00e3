use passenger_resource_management::application::audit_journal::{AuditJournal, AuditSource};
use passenger_resource_management::application::ports::{AdminEventSink, UsageEventSource};
use passenger_resource_management::application::passenger_service::PassengerService;
use passenger_resource_management::domain::actor::Actor;
use passenger_resource_management::domain::admin_event::AdminAction;
use passenger_resource_management::infrastructure::fake_clock::FakeClock;
use passenger_resource_management::infrastructure::hash_chain::verify_chain;
use passenger_resource_management::infrastructure::in_memory_admin_event_sink::InMemoryAdminEventSink;
use passenger_resource_management::domain::crew_lead::{CrewLead, CrewLeadId};
use passenger_resource_management::domain::passenger::PassengerId;
use passenger_resource_management::domain::tier::Tier;
use passenger_resource_management::domain::errors::DomainError;
use passenger_resource_management::interface::composition_root::{build_demo_world, reset_world};
use passenger_resource_management::interface::http::{etag, listed_lead, parse_if_match};

#[test]
fn demo_world_is_seeded_and_audited() {
    let w = build_demo_world().expect("demo world");
    let leads: Vec<&str> = w.crew_leads.list().iter().map(|c| c.id.0.as_str()).collect();
    assert_eq!(leads, vec!["cl-aria", "cl-noor", "cl-jun"]);
    let pax: Vec<(&str, Tier)> = w.passengers.list().iter().map(|p| (p.id.0.as_str(), p.tier)).collect();
    assert_eq!(pax, vec![("ps-001", Tier::Silver), ("ps-002", Tier::Gold), ("ps-003", Tier::Platinum)]);
    let res: Vec<(&str, &str, Tier)> = w
        .resources
        .list()
        .iter()
        .map(|r| (r.id.0.as_str(), r.category.as_str(), r.min_tier))
        .collect();
    assert_eq!(
        res,
        vec![
            ("res-lounge", "social", Tier::Silver),
            ("res-spa", "wellness", Tier::Gold),
            ("res-bridge", "experience", Tier::Platinum),
        ]
    );
    assert_eq!(w.crew_leads.audit().unwrap().len(), 1);
    assert_eq!(w.passengers.audit().unwrap().len(), 3);
    assert_eq!(w.resources.audit().unwrap().len(), 3);
    assert!(w.access.sink().list().is_empty());
    assert_eq!(w.passengers.get(&PassengerId::from("ps-002")).unwrap().name, "Kai Reeves");
}

#[test]
fn etag_quotes_the_decimal_version() {
    assert_eq!(etag(0), "\"0\"");
    assert_eq!(etag(1234), "\"1234\"");
    assert_eq!(etag(u64::MAX), format!("\"{}\"", u64::MAX));
}

#[test]
fn etag_round_trips_through_if_match() {
    for v in [0, 1, 9, 10, 99, 100, 65_535, u64::MAX] {
        assert_eq!(parse_if_match(Some(&etag(v))), Some(v));
    }
}

#[test]
fn reset_gate_accepts_only_listed_leads() {
    let leads = vec![
        CrewLead { id: CrewLeadId::from("cl-aria"), name: "Aria".into() },
        CrewLead { id: CrewLeadId::from("cl-noor"), name: "Noor".into() },
    ];
    assert!(listed_lead(&leads, "cl-noor"));
    assert!(!listed_lead(&leads, "ps-001"));
    assert!(!listed_lead(&[], "cl-aria"));
}

#[test]
fn http_reports_audit_endpoint_lists_bootstrap_and_seed_events() {
    let w = build_demo_world().expect("demo world");
    let arr = w.journal.log().snapshot();
    // 1 bootstrap + 3 passengers + 3 resources = 7
    assert_eq!(arr.len(), 7);
    assert_eq!(arr[0].action, AdminAction::CrewLeadBootstrapped);
}

#[test]
fn demo_journal_holds_every_seeding_event_in_emission_order() {
    let w = build_demo_world().expect("demo world");
    let events = w.journal.log().snapshot();
    let actions: Vec<AdminAction> = events.iter().map(|e| e.action).collect();
    assert_eq!(
        actions,
        vec![
            AdminAction::CrewLeadBootstrapped,
            AdminAction::PassengerCreated,
            AdminAction::PassengerCreated,
            AdminAction::PassengerCreated,
            AdminAction::ResourceCreated,
            AdminAction::ResourceCreated,
            AdminAction::ResourceCreated,
        ]
    );
    let targets: Vec<&str> = events.iter().map(|e| e.target_id.as_str()).collect();
    assert_eq!(targets, vec!["cl-aria", "ps-001", "ps-002", "ps-003", "res-lounge", "res-spa", "res-bridge"]);
    let stamps: Vec<i64> = events.iter().map(|e| e.timestamp.0).collect();
    assert_eq!(stamps, vec![0, 0, 1, 2, 0, 1, 2]);
    assert!(events.iter().all(|e| e.actor_id.0 == "cl-aria"));
    let check = verify_chain(&w.journal.log().snapshot_with_hashes());
    assert!(check.valid);
    assert_eq!(check.length, 7);
}

#[test]
fn journal_forwards_only_events_it_has_not_seen() {
    let mut journal = AuditJournal::new();
    let mut pax = PassengerService::new(FakeClock::starting_at(10)).with_audit(InMemoryAdminEventSink::new());
    let lead = Actor::CrewLead(CrewLeadId::from("cl-aria"));
    pax.create(&lead, PassengerId::from("p1"), "One".into(), Tier::Gold).unwrap();
    let first = journal.forward(AuditSource::Passengers, pax.audit().unwrap());
    assert_eq!(first.len(), 1);
    let again = journal.forward(AuditSource::Passengers, pax.audit().unwrap());
    assert!(again.is_empty());
    pax.change_tier(&lead, &PassengerId::from("p1"), Tier::Platinum).unwrap();
    let second = journal.forward(AuditSource::Passengers, pax.audit().unwrap());
    assert_eq!(second.len(), 1);
    assert_eq!(second[0].action, AdminAction::PassengerTierChanged);
    assert_eq!(second[0].timestamp.0, 11);
    assert_eq!(journal.len(), 2);
    assert!(verify_chain(&journal.log().snapshot_with_hashes()).valid);
}

#[test]
fn journal_resumes_an_earlier_log() {
    let mut earlier = InMemoryAdminEventSink::new();
    let w = build_demo_world().expect("demo world");
    for e in w.journal.log().snapshot().into_iter().take(2) {
        earlier.append(e);
    }
    let journal = AuditJournal::resume(earlier);
    assert_eq!(journal.len(), 2);
}

#[test]
fn reset_installs_a_fresh_world_for_a_listed_lead_only() {
    let mut w = build_demo_world().expect("demo world");
    let lead = Actor::CrewLead(CrewLeadId::from("cl-aria"));
    w.passengers.soft_delete(&lead, &PassengerId::from("ps-001")).unwrap();
    assert_eq!(w.passengers.list().len(), 2);
    assert!(matches!(reset_world(w.crew_leads.list(), "ps-001"), Err(DomainError::UnauthorizedActor)));
    let fresh = reset_world(w.crew_leads.list(), "cl-noor").expect("listed lead");
    assert_eq!(fresh.passengers.list().len(), 3);
    assert!(fresh.passengers.deleted().is_empty());
    assert_eq!(fresh.journal.len(), 7);
    assert!(fresh.access.sink().list().is_empty());
}
