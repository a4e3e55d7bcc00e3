use passenger_resource_management::domain::admin_event::{AdminAction, AdminEvent, TargetKind};
use passenger_resource_management::domain::crew_lead::{CrewLead, CrewLeadId};
use passenger_resource_management::domain::passenger::{Passenger, PassengerId};
use passenger_resource_management::domain::resource::{Resource, ResourceId};
use passenger_resource_management::domain::tier::Tier;
use passenger_resource_management::domain::timestamp::Timestamp;
use passenger_resource_management::domain::usage_event::{Outcome, UsageEvent};
use passenger_resource_management::interface::dto::{
    AdminEventDto, CreatePassengerReq, CreateResourceReq, CrewLeadDto, OutcomeDto, PaginationQuery,
    PassengerDto, ResourceDto, SoftDeleteQuery, TierDto, TopNQuery, UsageEventDto, UseResourceReq,
};

#[test]
fn crew_lead_dto_validate_reports_first_bad_field() {
    let ok = CrewLeadDto { id: "cl-1".into(), name: "Aria".into() };
    assert_eq!(ok.validate(), Ok(()));
    let empty_id = CrewLeadDto { id: String::new(), name: String::new() };
    assert_eq!(empty_id.validate(), Err("id must not be empty"));
    let long_name = CrewLeadDto { id: "x".into(), name: "n".repeat(256) };
    assert_eq!(long_name.validate(), Err("name must be 255 characters or fewer"));
    let empty_name = CrewLeadDto { id: "x".into(), name: String::new() };
    assert_eq!(empty_name.validate(), Err("name must not be empty"));
}

#[test]
fn validation_counts_characters_not_bytes() {
    // 200 two-byte characters: 400 bytes, but only 200 characters.
    let wide = CrewLeadDto { id: "é".repeat(200), name: "ü".repeat(255) };
    assert_eq!(wide.validate(), Ok(()));
    let too_long = CreatePassengerReq { id: "é".repeat(256), name: "n".into(), tier: TierDto::Gold };
    assert_eq!(too_long.validate(), Err("id must be 255 characters or fewer"));
    let just_fits = CreatePassengerReq { id: "a".repeat(255), name: "n".into(), tier: TierDto::Gold };
    assert_eq!(just_fits.validate(), Ok(()));
}

#[test]
fn create_resource_req_checks_category_last() {
    let req = CreateResourceReq {
        id: "r".into(),
        name: "R".into(),
        category: String::new(),
        min_tier: TierDto::Silver,
    };
    assert_eq!(req.validate(), Err("category must not be empty"));
    let long = CreateResourceReq {
        id: "r".into(),
        name: "R".into(),
        category: "c".repeat(300),
        min_tier: TierDto::Silver,
    };
    assert_eq!(long.validate(), Err("category must be 255 characters or fewer"));
    let both_bad = CreateResourceReq {
        id: "r".into(),
        name: String::new(),
        category: String::new(),
        min_tier: TierDto::Silver,
    };
    assert_eq!(both_bad.validate(), Err("name must not be empty"));
}

#[test]
fn use_resource_req_validate() {
    assert_eq!(UseResourceReq { resource_id: String::new() }.validate(), Err("resource_id must not be empty"));
    assert_eq!(
        UseResourceReq { resource_id: "r".repeat(256) }.validate(),
        Err("resource_id must be 255 characters or fewer")
    );
    assert_eq!(UseResourceReq { resource_id: "res-spa".into() }.validate(), Ok(()));
}

#[test]
fn tier_dto_round_trips() {
    for t in [Tier::Silver, Tier::Gold, Tier::Diamond, Tier::Platinum] {
        assert_eq!(Tier::from(TierDto::from(t)), t);
    }
    assert_eq!(TierDto::from(Tier::Diamond), TierDto::Diamond);
}

#[test]
fn top_n_defaults_to_five_and_caps_at_one_thousand() {
    assert_eq!(TopNQuery { n: None }.n(), 5);
    assert_eq!(TopNQuery { n: Some(0) }.n(), 0);
    assert_eq!(TopNQuery { n: Some(999) }.n(), 999);
    assert_eq!(TopNQuery { n: Some(5000) }.n(), 1000);
}

#[test]
fn pagination_defaults_and_caps() {
    let none = PaginationQuery { offset: None, limit: None };
    assert_eq!(none.offset(), 0);
    assert_eq!(none.limit(), 100);
    let big = PaginationQuery { offset: Some(usize::MAX), limit: Some(1001) };
    assert_eq!(big.offset(), 1_000_000);
    assert_eq!(big.limit(), 1000);
    let small = PaginationQuery { offset: Some(3), limit: Some(7) };
    assert_eq!(small.offset(), 3);
    assert_eq!(small.limit(), 7);
}

#[test]
fn include_deleted_is_off_unless_true() {
    assert!(!SoftDeleteQuery { include_deleted: None }.include_deleted());
    assert!(!SoftDeleteQuery { include_deleted: Some(false) }.include_deleted());
    assert!(SoftDeleteQuery { include_deleted: Some(true) }.include_deleted());
}

#[test]
fn record_dtos_copy_every_field() {
    let p = Passenger {
        id: PassengerId::from("p1"),
        name: "Mira".into(),
        tier: Tier::Gold,
        deleted_at: Some(Timestamp(9)),
        version: 3,
    };
    let d = PassengerDto::from(&p);
    assert_eq!(d.id, "p1");
    assert_eq!(d.name, "Mira");
    assert_eq!(d.tier, TierDto::Gold);
    assert_eq!(d.deleted_at, Some(9));
    assert_eq!(d.version, 3);
    let r = Resource {
        id: ResourceId::from("r1"),
        name: "Spa".into(),
        category: "wellness".into(),
        min_tier: Tier::Platinum,
        deleted_at: None,
        version: 0,
    };
    let rd = ResourceDto::from(&r);
    assert_eq!(rd.category, "wellness");
    assert_eq!(rd.min_tier, TierDto::Platinum);
    assert_eq!(rd.deleted_at, None);
    let lead = CrewLead { id: CrewLeadId::from("cl"), name: "Noor".into() };
    let ld = CrewLeadDto::from(&lead);
    assert_eq!((ld.id.as_str(), ld.name.as_str()), ("cl", "Noor"));
    let back = CrewLead::from(ld);
    assert_eq!(back.id, CrewLeadId::from("cl"));
    assert_eq!(back.name, "Noor");
}

#[test]
fn event_dtos_name_actions_and_kinds() {
    let e = AdminEvent {
        id: "e".into(),
        actor_id: CrewLeadId::from("cl"),
        action: AdminAction::ResourceMinTierChanged,
        target_kind: TargetKind::Resource,
        target_id: "r".into(),
        timestamp: Timestamp(5),
        details: Some("min_tier=Gold".into()),
    };
    let d = AdminEventDto::from(&e);
    assert_eq!(d.action, "ResourceMinTierChanged");
    assert_eq!(d.target_kind, "Resource");
    assert_eq!(d.details.as_deref(), Some("min_tier=Gold"));
    assert!(d.event_hash.is_empty());
    let u = UsageEvent {
        id: "u".into(),
        passenger_id: PassengerId::from("p"),
        resource_id: ResourceId::from("r"),
        tier_at_attempt: Tier::Silver,
        min_tier_at_attempt: Tier::Gold,
        timestamp: Timestamp(11),
        outcome: Outcome::Denied,
    };
    let ud = UsageEventDto::from(&u);
    assert_eq!(ud.outcome, OutcomeDto::Denied);
    assert_eq!(ud.tier_at_attempt, TierDto::Silver);
    assert_eq!(ud.min_tier_at_attempt, TierDto::Gold);
    assert_eq!(ud.timestamp, 11);
}
