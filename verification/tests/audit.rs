use passenger_resource_management::application::crew_lead_service::CrewLeadService;
use passenger_resource_management::application::passenger_service::PassengerService;
use passenger_resource_management::application::resource_service::ResourceService;
use passenger_resource_management::domain::actor::Actor;
use passenger_resource_management::domain::admin_event::{AdminAction, TargetKind};
use passenger_resource_management::domain::crew_lead::{CrewLead, CrewLeadId};
use passenger_resource_management::domain::passenger::PassengerId;
use passenger_resource_management::domain::resource::ResourceId;
use passenger_resource_management::domain::tier::Tier;
use passenger_resource_management::infrastructure::fake_clock::FakeClock;
use passenger_resource_management::infrastructure::in_memory_admin_event_sink::InMemoryAdminEventSink;

fn admin() -> Actor {
    Actor::CrewLead(CrewLeadId::from("a"))
}
fn pa(id: &str) -> Actor {
    Actor::Passenger(PassengerId::from(id))
}

#[test]
fn au_s1_passenger_create_emits_passenger_created() {
    let mut svc = PassengerService::new(FakeClock::default()).with_audit(InMemoryAdminEventSink::new());
    svc.create(&admin(), PassengerId::from("p1"), "P1".into(), Tier::Silver)
        .unwrap();
    let events = svc.audit().unwrap().snapshot();
    assert_eq!(events.len(), 1);
    assert_eq!(events[0].action, AdminAction::PassengerCreated);
    assert_eq!(events[0].target_kind, TargetKind::Passenger);
    assert_eq!(events[0].target_id, "p1");
    assert_eq!(events[0].actor_id, CrewLeadId::from("a"));
}

#[test]
fn au_s2_passenger_change_tier_emits_with_details() {
    let mut svc = PassengerService::new(FakeClock::default()).with_audit(InMemoryAdminEventSink::new());
    svc.create(&admin(), PassengerId::from("p1"), "P1".into(), Tier::Silver)
        .unwrap();
    svc.change_tier(&admin(), &PassengerId::from("p1"), Tier::Gold)
        .unwrap();
    let events = svc.audit().unwrap().snapshot();
    assert_eq!(events.len(), 2);
    assert_eq!(events[1].action, AdminAction::PassengerTierChanged);
    assert!(
        events[1]
            .details
            .as_deref()
            .is_some_and(|s| s.contains("Gold"))
    );
}

#[test]
fn au_s3_passenger_soft_delete_emits_passenger_deleted() {
    let mut svc = PassengerService::new(FakeClock::default()).with_audit(InMemoryAdminEventSink::new());
    svc.create(&admin(), PassengerId::from("p1"), "P1".into(), Tier::Silver)
        .unwrap();
    svc.soft_delete(&admin(), &PassengerId::from("p1")).unwrap();
    let events = svc.audit().unwrap().snapshot();
    assert_eq!(events.last().unwrap().action, AdminAction::PassengerDeleted);
}

#[test]
fn au_s4_resource_create_emits_resource_created() {
    let mut svc = ResourceService::new(FakeClock::default()).with_audit(InMemoryAdminEventSink::new());
    svc.create(
        &admin(),
        ResourceId::from("r1"),
        "R1".into(),
        "g".into(),
        Tier::Silver,
    )
    .unwrap();
    let events = svc.audit().unwrap().snapshot();
    assert_eq!(events.len(), 1);
    assert_eq!(events[0].action, AdminAction::ResourceCreated);
    assert_eq!(events[0].target_kind, TargetKind::Resource);
    assert_eq!(events[0].target_id, "r1");
}

#[test]
fn au_s5_resource_change_min_tier_emits_with_details() {
    let mut svc = ResourceService::new(FakeClock::default()).with_audit(InMemoryAdminEventSink::new());
    svc.create(
        &admin(),
        ResourceId::from("r1"),
        "R1".into(),
        "g".into(),
        Tier::Silver,
    )
    .unwrap();
    svc.change_min_tier(&admin(), &ResourceId::from("r1"), Tier::Platinum)
        .unwrap();
    let events = svc.audit().unwrap().snapshot();
    assert_eq!(events[1].action, AdminAction::ResourceMinTierChanged);
    assert!(
        events[1]
            .details
            .as_deref()
            .is_some_and(|s| s.contains("Platinum"))
    );
}

#[test]
fn au_s6_resource_soft_delete_emits_resource_deleted() {
    let mut svc = ResourceService::new(FakeClock::default()).with_audit(InMemoryAdminEventSink::new());
    svc.create(
        &admin(),
        ResourceId::from("r1"),
        "R1".into(),
        "g".into(),
        Tier::Silver,
    )
    .unwrap();
    svc.soft_delete(&admin(), &ResourceId::from("r1")).unwrap();
    let events = svc.audit().unwrap().snapshot();
    assert_eq!(events.last().unwrap().action, AdminAction::ResourceDeleted);
}

#[test]
fn au_s7_bootstrap_audited_emits_crewleadbootstrapped() {
    let leads = vec![
        CrewLead {
            id: CrewLeadId::from("a"),
            name: "A".into(),
        },
        CrewLead {
            id: CrewLeadId::from("b"),
            name: "B".into(),
        },
        CrewLead {
            id: CrewLeadId::from("c"),
            name: "C".into(),
        },
    ];
    let svc = CrewLeadService::bootstrap_audited(
        leads,
        FakeClock::default(),
        InMemoryAdminEventSink::new(),
    )
    .unwrap();
    let events = svc.audit().unwrap().snapshot();
    assert_eq!(events.len(), 1);
    assert_eq!(events[0].action, AdminAction::CrewLeadBootstrapped);
    assert_eq!(events[0].target_kind, TargetKind::CrewLead);
}

#[test]
fn au_s8_replace_audited_emits_crewleadreplaced() {
    let leads = vec![
        CrewLead {
            id: CrewLeadId::from("a"),
            name: "A".into(),
        },
        CrewLead {
            id: CrewLeadId::from("b"),
            name: "B".into(),
        },
        CrewLead {
            id: CrewLeadId::from("c"),
            name: "C".into(),
        },
    ];
    let mut svc = CrewLeadService::bootstrap_audited(
        leads,
        FakeClock::default(),
        InMemoryAdminEventSink::new(),
    )
    .unwrap();
    svc.replace_audited(
        &CrewLeadId::from("a"),
        &CrewLeadId::from("a"),
        CrewLead {
            id: CrewLeadId::from("d"),
            name: "D".into(),
        },
    )
    .unwrap();
    let events = svc.audit().unwrap().snapshot();
    assert_eq!(events.len(), 2);
    assert_eq!(events[1].action, AdminAction::CrewLeadReplaced);
    assert_eq!(events[1].target_id, "d");
}

#[test]
fn au_s9_unauthorized_create_emits_no_event() {
    let mut svc = PassengerService::new(FakeClock::default()).with_audit(InMemoryAdminEventSink::new());
    let _ = svc.create(
        &pa("p1"),
        PassengerId::from("p1"),
        "P1".into(),
        Tier::Silver,
    );
    assert!(svc.audit().unwrap().is_empty());
}

#[test]
fn au_s10_change_tier_unknown_passenger_emits_no_event() {
    let mut svc = PassengerService::new(FakeClock::default()).with_audit(InMemoryAdminEventSink::new());
    let _ = svc.change_tier(&admin(), &PassengerId::from("ghost"), Tier::Gold);
    assert!(svc.audit().unwrap().is_empty());
}

#[test]
fn au_s11_create_change_delete_recorded_in_order() {
    let mut svc = PassengerService::new(FakeClock::default()).with_audit(InMemoryAdminEventSink::new());
    svc.create(&admin(), PassengerId::from("p1"), "P1".into(), Tier::Silver)
        .unwrap();
    svc.change_tier(&admin(), &PassengerId::from("p1"), Tier::Gold)
        .unwrap();
    svc.soft_delete(&admin(), &PassengerId::from("p1")).unwrap();
    let actions: Vec<_> = svc.audit().unwrap().snapshot().into_iter().map(|e| e.action).collect();
    assert_eq!(
        actions,
        vec![
            AdminAction::PassengerCreated,
            AdminAction::PassengerTierChanged,
            AdminAction::PassengerDeleted,
        ]
    );
}

#[test]
fn deletion_stamp_and_event_stamps_follow_the_clock() {
    let mut pax = PassengerService::new(FakeClock::starting_at(100)).with_audit(InMemoryAdminEventSink::new());
    pax.create(&admin(), PassengerId::from("p1"), "P1".into(), Tier::Gold).unwrap();
    pax.soft_delete(&admin(), &PassengerId::from("p1")).unwrap();
    let got = pax.get(&PassengerId::from("p1")).unwrap();
    // create reads 100; the deletion stamp reads 101; its event reads 102.
    assert_eq!(got.deleted_at.map(|t| t.0), Some(101));
    let stamps: Vec<i64> = pax.audit().unwrap().snapshot().iter().map(|e| e.timestamp.0).collect();
    assert_eq!(stamps, vec![100, 102]);

    let mut res = ResourceService::new(FakeClock::starting_at(7));
    res.create(&admin(), ResourceId::from("r1"), "R".into(), "c".into(), Tier::Silver).unwrap();
    res.soft_delete(&admin(), &ResourceId::from("r1")).unwrap();
    // Without auditing only the deletion reads the clock.
    assert_eq!(res.get(&ResourceId::from("r1")).unwrap().deleted_at.map(|t| t.0), Some(7));
}
