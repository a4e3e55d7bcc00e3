//! The seeded demo world the server starts from: three crew leads, three
//! passengers and three resources, with every mutation audited.
use vstd::prelude::*;
use crate::application::access_service::AccessService;
use crate::application::audit_journal::{AuditJournal, AuditSource};
use crate::application::crew_lead_service::CrewLeadService;
use crate::application::passenger_service::PassengerService;
use crate::application::ports::UsageEventSink;
use crate::application::resource_service::ResourceService;
use crate::domain::actor::Actor;
use crate::domain::admin_event::{AdminAction, AdminEvent, TargetKind, is_uuid_v4_text};
use crate::domain::crew_lead::{CrewLead, CrewLeadId};
use crate::domain::errors::DomainError;
use crate::domain::passenger::{Passenger, PassengerId};
use crate::domain::resource::{Resource, ResourceId};
use crate::domain::text::owned;
use crate::domain::tier::{Tier, tier_name};
use crate::domain::usage_event::UsageEvent;
use crate::infrastructure::fake_clock::FakeClock;
use crate::infrastructure::in_memory_admin_event_sink::InMemoryAdminEventSink;
use crate::infrastructure::in_memory_usage_event_sink::InMemoryUsageEventSink;
use crate::infrastructure::server_clock::ServerClock;
use crate::interface::http::listed_lead;

verus! {

/// The services of a running server and the journal that holds the audit
/// events of all of them. Each service records into a sink of its own,
/// whose new events are forwarded to the journal after every mutation.
pub struct World<U: UsageEventSink> {
    pub crew_leads: CrewLeadService<ServerClock, InMemoryAdminEventSink>,
    pub passengers: PassengerService<FakeClock, InMemoryAdminEventSink>,
    pub resources: ResourceService<FakeClock, InMemoryAdminEventSink>,
    pub access: AccessService<FakeClock, U>,
    pub journal: AuditJournal,
}

/// The demo crew leads: id and name, in order.
pub open spec fn demo_leads() -> Seq<(Seq<char>, Seq<char>)> {
    seq![("cl-aria"@, "Aria Vega"@), ("cl-noor"@, "Noor Hadid"@), ("cl-jun"@, "Jun Park"@)]
}

/// The demo passengers: id, name and tier, in order.
pub open spec fn demo_passengers() -> Seq<(Seq<char>, Seq<char>, Tier)> {
    seq![
        ("ps-001"@, "Mira Voss"@, Tier::Silver),
        ("ps-002"@, "Kai Reeves"@, Tier::Gold),
        ("ps-003"@, "Lena Ito"@, Tier::Platinum),
    ]
}

/// The demo resources: id, name, category and minimum tier, in order.
pub open spec fn demo_resources() -> Seq<(Seq<char>, Seq<char>, Seq<char>, Tier)> {
    seq![
        ("res-lounge"@, "Stardeck Lounge"@, "social"@, Tier::Silver),
        ("res-spa"@, "Zero-G Spa"@, "wellness"@, Tier::Gold),
        ("res-bridge"@, "Bridge Tour"@, "experience"@, Tier::Platinum),
    ]
}

/// The passenger is the fresh active record for the demo entry.
pub open spec fn is_demo_passenger(p: Passenger, d: (Seq<char>, Seq<char>, Tier)) -> bool {
    &&& p.id@ == d.0
    &&& p.name@ == d.1
    &&& p.tier == d.2
    &&& p.deleted_at is None
    &&& p.version == 0
}

/// The resource is the fresh active record for the demo entry.
pub open spec fn is_demo_resource(r: Resource, d: (Seq<char>, Seq<char>, Seq<char>, Tier)) -> bool {
    &&& r.id@ == d.0
    &&& r.name@ == d.1
    &&& r.category@ == d.2
    &&& r.min_tier == d.3
    &&& r.deleted_at is None
    &&& r.version == 0
}

/// `e` records a seeding step of the first demo lead: `action` on the `kind`
/// entity `target`, with details text `details`, stamped `at`, under a fresh
/// UUID v4 id.
pub open spec fn seeded_event(
    e: AdminEvent,
    action: AdminAction,
    kind: TargetKind,
    target: Seq<char>,
    details: Seq<char>,
    at: i64,
) -> bool {
    &&& e.timestamp.0 == at
    &&& e.actor_id@ == "cl-aria"@
    &&& e.action == action
    &&& e.target_kind == kind
    &&& e.target_id@ == target
    &&& e.details matches Some(d) && d@ == details
    &&& is_uuid_v4_text(e.id@)
}

/// `w` is the seeded demo world whose journal held `prior` and whose usage
/// sink held `usage_log` before the seeding: the demo leads, passengers and
/// resources in order, nothing deleted; the bootstrap event, then the three
/// passenger creations, then the three resource creations, each service's
/// clock starting at 0, recorded by the services and appended in that order
/// to the journal after `prior`; usage untouched.
pub open spec fn is_demo_world<U: UsageEventSink>(
    w: World<U>,
    prior: Seq<AdminEvent>,
    usage_log: Seq<UsageEvent>,
) -> bool {
    &&& w.crew_leads.roster().len() == 3
    &&& forall|i: int|
        0 <= i < 3 ==> (#[trigger] w.crew_leads.roster()[i]).id@ == demo_leads()[i].0
            && w.crew_leads.roster()[i].name@ == demo_leads()[i].1
    &&& w.passengers.active_records().len() == 3
    &&& forall|i: int|
        0 <= i < 3 ==> is_demo_passenger(
            #[trigger] w.passengers.active_records()[i],
            demo_passengers()[i],
        )
    &&& w.passengers.deleted_records().len() == 0
    &&& w.passengers.ids_distinct()
    &&& w.resources.active_records().len() == 3
    &&& forall|i: int|
        0 <= i < 3 ==> is_demo_resource(
            #[trigger] w.resources.active_records()[i],
            demo_resources()[i],
        )
    &&& w.resources.deleted_records().len() == 0
    &&& w.resources.ids_distinct()
    &&& w.crew_leads.audit_log().len() == 1
    &&& seeded_event(
        w.crew_leads.audit_log()[0],
        AdminAction::CrewLeadBootstrapped,
        TargetKind::CrewLead,
        "cl-aria"@,
        "count="@ + "3"@,
        0,
    )
    &&& w.passengers.audit_log().len() == 3
    &&& forall|i: int|
        0 <= i < 3 ==> seeded_event(
            #[trigger] w.passengers.audit_log()[i],
            AdminAction::PassengerCreated,
            TargetKind::Passenger,
            demo_passengers()[i].0,
            "tier="@ + tier_name(demo_passengers()[i].2),
            i as i64,
        )
    &&& w.resources.audit_log().len() == 3
    &&& forall|i: int|
        0 <= i < 3 ==> seeded_event(
            #[trigger] w.resources.audit_log()[i],
            AdminAction::ResourceCreated,
            TargetKind::Resource,
            demo_resources()[i].0,
            "min_tier="@ + tier_name(demo_resources()[i].3),
            i as i64,
        )
    &&& w.journal.entries() == prior + w.crew_leads.audit_log() + w.passengers.audit_log()
        + w.resources.audit_log()
    &&& w.journal.cursor(AuditSource::CrewLeads) == 1
    &&& w.journal.cursor(AuditSource::Passengers) == 3
    &&& w.journal.cursor(AuditSource::Resources) == 3
    &&& w.access.recorded() == usage_log
}

fn lead(id: &str, name: &str) -> (c: CrewLead)
    ensures
        c.id@ == id@,
        c.name@ == name@,
{
    CrewLead { id: CrewLeadId::from(id), name: owned(name) }
}

/// Seed the demo world: the three crew leads bootstrapped, then three
/// passengers and three resources created by the first lead, every event
/// appended to the journal that continues `audit`. Usage is recorded in
/// `usage`. The seeding cannot fail.
pub fn build_world<U: UsageEventSink>(audit: InMemoryAdminEventSink, usage: U) -> (r: Result<
    World<U>,
    DomainError,
>)
    ensures
        match r {
            Ok(w) => {
                &&& is_demo_world(w, audit.events(), usage.usage_log())
                &&& audit.chain_intact() ==> w.journal.intact()
            },
            Err(_) => false,
        },
{
    let mut journal = AuditJournal::resume(audit);
    proof {
        reveal_strlit("cl-aria");
        reveal_strlit("cl-noor");
        reveal_strlit("cl-jun");
        reveal_strlit("ps-001");
        reveal_strlit("ps-002");
        reveal_strlit("ps-003");
        reveal_strlit("res-lounge");
        reveal_strlit("res-spa");
        reveal_strlit("res-bridge");
    }
    let mut leads: Vec<CrewLead> = Vec::new();
    leads.push(lead("cl-aria", "Aria Vega"));
    leads.push(lead("cl-noor", "Noor Hadid"));
    leads.push(lead("cl-jun", "Jun Park"));
    assert(leads@[0].id@[3] != leads@[1].id@[3]);
    assert(leads@[0].id@.len() != leads@[2].id@.len());
    assert(leads@[1].id@.len() != leads@[2].id@.len());
    let crew_leads = match CrewLeadService::bootstrap_audited(
        leads,
        ServerClock::Fake(FakeClock::default()),
        InMemoryAdminEventSink::new(),
    ) {
        Ok(svc) => svc,
        Err(e) => return Err(e),
    };
    match crew_leads.audit() {
        Some(sink) => {
            journal.forward(AuditSource::CrewLeads, sink);
            assert(sink.events().skip(0) =~= sink.events());
        },
        None => {},
    }
    assert(journal.entries() == audit.events() + crew_leads.audit_log());
    let mut passengers = PassengerService::new(FakeClock::default()).with_audit(
        InMemoryAdminEventSink::new(),
    );
    let mut resources = ResourceService::new(FakeClock::default()).with_audit(
        InMemoryAdminEventSink::new(),
    );
    let access = AccessService::new(FakeClock::default(), usage);
    let admin = Actor::CrewLead(CrewLeadId::from("cl-aria"));

    match passengers.create(&admin, PassengerId::from("ps-001"), owned("Mira Voss"), Tier::Silver) {
        Ok(_) => {},
        Err(e) => return Err(e),
    }
    let ghost p1 = passengers.active_records();
    assert(p1.len() == 1 && p1[0].id@ == "ps-001"@);
    assert(!(exists|i: int| 0 <= i < p1.len() && p1[i].id@ == "ps-002"@)) by {
        assert("ps-001"@[5] != "ps-002"@[5]);
    }
    match passengers.create(&admin, PassengerId::from("ps-002"), owned("Kai Reeves"), Tier::Gold) {
        Ok(_) => {},
        Err(e) => return Err(e),
    }
    let ghost p2 = passengers.active_records();
    assert(p2.len() == 2 && p2[0].id@ == "ps-001"@ && p2[1].id@ == "ps-002"@);
    assert(!(exists|i: int| 0 <= i < p2.len() && p2[i].id@ == "ps-003"@)) by {
        assert("ps-001"@[5] != "ps-003"@[5]);
        assert("ps-002"@[5] != "ps-003"@[5]);
    }
    match passengers.create(&admin, PassengerId::from("ps-003"), owned("Lena Ito"), Tier::Platinum) {
        Ok(_) => {},
        Err(e) => return Err(e),
    }

    match resources.create(
        &admin,
        ResourceId::from("res-lounge"),
        owned("Stardeck Lounge"),
        owned("social"),
        Tier::Silver,
    ) {
        Ok(_) => {},
        Err(e) => return Err(e),
    }
    let ghost q1 = resources.active_records();
    assert(q1.len() == 1 && q1[0].id@ == "res-lounge"@);
    assert(!(exists|i: int| 0 <= i < q1.len() && q1[i].id@ == "res-spa"@)) by {
        assert("res-lounge"@.len() != "res-spa"@.len());
    }
    match resources.create(
        &admin,
        ResourceId::from("res-spa"),
        owned("Zero-G Spa"),
        owned("wellness"),
        Tier::Gold,
    ) {
        Ok(_) => {},
        Err(e) => return Err(e),
    }
    let ghost q2 = resources.active_records();
    assert(q2.len() == 2 && q2[0].id@ == "res-lounge"@ && q2[1].id@ == "res-spa"@);
    assert(!(exists|i: int| 0 <= i < q2.len() && q2[i].id@ == "res-bridge"@)) by {
        assert("res-lounge"@[4] != "res-bridge"@[4]);
        assert("res-spa"@.len() != "res-bridge"@.len());
    }
    match resources.create(
        &admin,
        ResourceId::from("res-bridge"),
        owned("Bridge Tour"),
        owned("experience"),
        Tier::Platinum,
    ) {
        Ok(_) => {},
        Err(e) => return Err(e),
    }
    match passengers.audit() {
        Some(sink) => {
            journal.forward(AuditSource::Passengers, sink);
            assert(sink.events().skip(0) =~= sink.events());
        },
        None => {},
    }
    assert(journal.entries() == audit.events() + crew_leads.audit_log() + passengers.audit_log());
    match resources.audit() {
        Some(sink) => {
            journal.forward(AuditSource::Resources, sink);
            assert(sink.events().skip(0) =~= sink.events());
        },
        None => {},
    }
    assert(journal.cursor(AuditSource::CrewLeads) == 1);
    Ok(World { crew_leads, passengers, resources, access, journal })
}

/// The demo world with in-memory sinks.
pub fn build_demo_world() -> (r: Result<World<InMemoryUsageEventSink>, DomainError>)
    ensures
        r matches Ok(w) && is_demo_world(w, Seq::empty(), Seq::empty()) && w.journal.intact(),
{
    build_world(InMemoryAdminEventSink::new(), InMemoryUsageEventSink::new())
}

/// The state a reset asked by `actor_id` installs: refused with
/// `UnauthorizedActor` unless `actor_id` is one of the current crew leads
/// `leads`; otherwise a freshly seeded demo world, whose journal holds only
/// the seeding events.
pub fn reset_world(leads: &[CrewLead], actor_id: &str) -> (r: Result<
    World<InMemoryUsageEventSink>,
    DomainError,
>)
    ensures
        match r {
            Ok(w) => {
                &&& exists|i: int| 0 <= i < leads@.len() && (#[trigger] leads@[i]).id@ == actor_id@
                &&& is_demo_world(w, Seq::empty(), Seq::empty())
                &&& w.journal.intact()
            },
            Err(e) => {
                &&& e == DomainError::UnauthorizedActor
                &&& !exists|i: int| 0 <= i < leads@.len() && (#[trigger] leads@[i]).id@ == actor_id@
            },
        },
{
    if !listed_lead(leads, actor_id) {
        return Err(DomainError::UnauthorizedActor);
    }
    build_demo_world()
}

} // verus!
