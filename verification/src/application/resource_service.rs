//! Resource administration.
use vstd::prelude::*;
use crate::application::event_ids::new_event_id;
use crate::application::guards::require_crew_lead;
use crate::application::ports::{AdminEventSink, Clock, log_of, stamped, stamped_deletion};
use crate::domain::actor::Actor;
use crate::domain::admin_event::{AdminAction, AdminEvent, TargetKind, logged};
use crate::domain::crew_lead::CrewLeadId;
use crate::domain::errors::DomainError;
use crate::application::passenger_service::text_of;
use crate::domain::lookup::{
    first_index, last_index, lemma_first_index_facts, lemma_first_index_is, lemma_last_index_is,
};
use crate::domain::resource::{Resource, ResourceId};
use crate::domain::tier::{Tier, grants, tier_name};
use crate::infrastructure::in_memory_admin_event_sink::InMemoryAdminEventSink;
use crate::infrastructure::labels::tier_to_str;

verus! {

/// Holds the active resources (insertion order) and the soft-deleted
/// records, stamps deletions from the clock `C`, and records every
/// successful mutation in the audit sink `A` when one is configured.
pub struct ResourceService<C: Clock, A: AdminEventSink = InMemoryAdminEventSink> {
    active: Vec<Resource>,
    deleted: Vec<Resource>,
    clock: C,
    audit: Option<A>,
}

/// The record carries the id `id`.
pub open spec fn resource_with_id(id: Seq<char>) -> spec_fn(Resource) -> bool {
    |q: Resource| q.id@ == id
}

/// No two records of `s` share an id.
pub open spec fn distinct_resource_ids(s: Seq<Resource>) -> bool {
    forall|i: int, j: int| 0 <= i < j < s.len() ==> (#[trigger] s[i]).id@ != (#[trigger] s[j]).id@
}

/// Where ids are distinct, a lookup of any active record's id finds that
/// record's own slot.
pub proof fn lemma_distinct_lookup_finds_own_slot(s: Seq<Resource>, i: int)
    requires
        distinct_resource_ids(s),
        0 <= i < s.len(),
    ensures
        first_index(s, resource_with_id(s[i].id@)) == Some(i),
{
    assert forall|j: int| 0 <= j < i implies !resource_with_id(s[i].id@)(#[trigger] s[j]) by {
        assert(s[j].id@ != s[i].id@);
    }
    lemma_first_index_is(s, resource_with_id(s[i].id@), i);
}

/// `p` with its minimum tier set to `tier` and its version bumped.
pub open spec fn retiered(p: Resource, tier: Tier) -> Resource {
    Resource {
        id: p.id,
        name: p.name,
        category: p.category,
        min_tier: tier,
        deleted_at: p.deleted_at,
        version: (p.version + 1) as u64,
    }
}

/// `q` is `p` stamped as deleted, with its version bumped.
pub open spec fn retired(p: Resource, q: Resource) -> bool {
    &&& q.id == p.id
    &&& q.name == p.name
    &&& q.category == p.category
    &&& q.min_tier == p.min_tier
    &&& q.deleted_at is Some
    &&& q.version == p.version + 1
}

/// A created resource is what a lookup of its id finds: it becomes the first
/// active record with that id.
pub proof fn lemma_lookup_after_create(active: Seq<Resource>, p: Resource)
    requires
        first_index(active, resource_with_id(p.id@)) is None,
    ensures
        first_index(active.push(p), resource_with_id(p.id@)) == Some(active.len() as int),
{
    let after = active.push(p);
    assert forall|j: int| 0 <= j < active.len() implies !resource_with_id(p.id@)(#[trigger] after[j]) by {
        assert(after[j] == active[j]);
        assert(!(0 <= j < active.len() && resource_with_id(p.id@)(active[j])));
    }
    lemma_first_index_is(after, resource_with_id(p.id@), active.len() as int);
}

/// After a tier change the lookup finds the same slot, now holding the
/// record with the new tier and the next version.
pub proof fn lemma_lookup_after_change_tier(active: Seq<Resource>, i: int, tier: Tier)
    requires
        0 <= i < active.len(),
        first_index(active, resource_with_id(active[i].id@)) == Some(i),
    ensures
        ({
            let after = active.update(i, retiered(active[i], tier));
            &&& first_index(after, resource_with_id(active[i].id@)) == Some(i)
            &&& after[i].min_tier == tier
            &&& after[i].id == active[i].id
        }),
{
    let id = active[i].id@;
    let after = active.update(i, retiered(active[i], tier));
    lemma_first_index_facts(active, resource_with_id(id));
    assert forall|j: int| 0 <= j < i implies !resource_with_id(id)(#[trigger] after[j]) by {
        assert(after[j] == active[j]);
    }
    lemma_first_index_is(after, resource_with_id(id), i);
}

/// After the soft delete of the only active record with an id, no active
/// record has that id (it may be created again) and a lookup finds the
/// retired record `q`.
pub proof fn lemma_lookup_after_soft_delete(active: Seq<Resource>, deleted: Seq<Resource>, i: int, q: Resource)
    requires
        0 <= i < active.len(),
        forall|j: int| 0 <= j < active.len() && j != i ==> (#[trigger] active[j]).id@ != active[i].id@,
        q.id == active[i].id,
    ensures
        first_index(active.remove(i), resource_with_id(active[i].id@)) is None,
        last_index(deleted.push(q), resource_with_id(active[i].id@)) == Some(deleted.len() as int),
{
    let id = active[i].id@;
    let rest = active.remove(i);
    active.remove_ensures(i);
    assert forall|j: int| 0 <= j < rest.len() implies !resource_with_id(id)(#[trigger] rest[j]) by {
        if j < i {
            assert(rest[j] == active[j]);
        } else {
            assert(rest[j] == active[j + 1]);
        }
    }
    lemma_last_index_is(deleted.push(q), resource_with_id(id), deleted.len() as int);
}

/// Split records loaded from storage into the active ones and the
/// soft-deleted ones (those with a deletion stamp), each in stored order.
pub fn partition_resources(records: &[Resource]) -> (r: (Vec<Resource>, Vec<Resource>))
    ensures
        r.0@ == records@.filter(|q: Resource| q.deleted_at is None),
        r.1@ == records@.filter(|q: Resource| q.deleted_at is Some),
{
    let mut active: Vec<Resource> = Vec::new();
    let mut deleted: Vec<Resource> = Vec::new();
    let mut i: usize = 0;
    while i < records.len()
        invariant
            i <= records@.len(),
            active@ == records@.take(i as int).filter(|q: Resource| q.deleted_at is None),
            deleted@ == records@.take(i as int).filter(|q: Resource| q.deleted_at is Some),
        decreases records@.len() - i,
    {
        proof {
            reveal_with_fuel(Seq::<_>::filter, 1);
            assert(records@.take(i + 1).drop_last() =~= records@.take(i as int));
        }
        if records[i].deleted_at.is_some() {
            deleted.push(records[i].clone());
        } else {
            active.push(records[i].clone());
        }
        i += 1;
    }
    assert(records@.take(i as int) =~= records@);
    (active, deleted)
}

impl<C: Clock> ResourceService<C> {
    /// An empty roster without auditing.
    pub fn new(clock: C) -> (s: Self)
        ensures
            s.active_records() == Seq::<Resource>::empty(),
            s.ids_distinct(),
            s.deleted_records() == Seq::<Resource>::empty(),
            s.audit_sink() is None,
            s.clock_state() == clock,
    {
        ResourceService { active: Vec::new(), deleted: Vec::new(), clock, audit: None }
    }
}

impl<C: Clock, A: AdminEventSink> ResourceService<C, A> {
    /// Active resources, in insertion order.
    pub closed spec fn active_records(&self) -> Seq<Resource> {
        self.active@
    }

    /// Soft-deleted records, in deletion order.
    pub closed spec fn deleted_records(&self) -> Seq<Resource> {
        self.deleted@
    }

    /// The configured audit sink, if any.
    pub closed spec fn audit_sink(&self) -> Option<A> {
        self.audit
    }

    /// The current state of the service's clock.
    pub closed spec fn clock_state(&self) -> C {
        self.clock
    }

    pub open spec fn audited(&self) -> bool {
        self.audit_sink() is Some
    }

    /// Events in the audit sink (empty without one).
    pub open spec fn audit_log(&self) -> Seq<AdminEvent> {
        log_of(self.audit_sink())
    }

    /// No two active records share an id; every operation keeps this.
    pub open spec fn ids_distinct(&self) -> bool {
        distinct_resource_ids(self.active_records())
    }

    /// A call by `actor` on `id` can bump the version it would change: when
    /// a crew lead names an active record, that record (the first with the
    /// id) is below the largest version.
    pub open spec fn can_bump(&self, actor: Actor, id: Seq<char>) -> bool {
        actor is CrewLead ==> match first_index(self.active_records(), resource_with_id(id)) {
            Some(i) => self.active_records()[i].version < u64::MAX,
            None => true,
        }
    }

    /// Opt in to admin audit emission through `sink`.
    pub fn with_audit<B: AdminEventSink>(self, sink: B) -> (s: ResourceService<C, B>)
        ensures
            s.active_records() == self.active_records(),
            s.deleted_records() == self.deleted_records(),
            s.audit_sink() == Some(sink),
            s.clock_state() == self.clock_state(),
    {
        ResourceService {
            active: self.active,
            deleted: self.deleted,
            clock: self.clock,
            audit: Some(sink),
        }
    }

    /// Restore records loaded from storage; emits no audit event.
    pub fn with_preloaded(self, active: Vec<Resource>, deleted: Vec<Resource>) -> (s: Self)
        ensures
            s.active_records() == active@,
            s.deleted_records() == deleted@,
            s.audit_sink() == self.audit_sink(),
            s.clock_state() == self.clock_state(),
    {
        ResourceService { active, deleted, clock: self.clock, audit: self.audit }
    }

    /// The audit sink, when auditing is on.
    pub fn audit(&self) -> (r: Option<&A>)
        ensures
            match r {
                Some(a) => self.audit_sink() == Some(*a),
                None => self.audit_sink() is None,
            },
    {
        match &self.audit {
            Some(a) => Some(a),
            None => None,
        }
    }

    /// Soft-deleted records (for persistence snapshots).
    pub fn deleted(&self) -> (r: &[Resource])
        ensures
            r@ == self.deleted_records(),
    {
        self.deleted.as_slice()
    }

    /// Active resources in insertion order.
    pub fn list(&self) -> (r: &[Resource])
        ensures
            r@ == self.active_records(),
    {
        self.active.as_slice()
    }

    /// Active resources whose minimum tier `tier` reaches, in insertion order.
    pub fn list_accessible_for(&self, tier: Tier) -> (r: Vec<Resource>)
        ensures
            r@ == self.active_records().filter(|q: Resource| grants(tier, q.min_tier)),
    {
        let mut out: Vec<Resource> = Vec::new();
        let mut i: usize = 0;
        while i < self.active.len()
            invariant
                i <= self.active@.len(),
                out@ == self.active@.take(i as int).filter(|q: Resource| grants(tier, q.min_tier)),
            decreases self.active@.len() - i,
        {
            proof {
                reveal_with_fuel(Seq::<_>::filter, 1);
                assert(self.active@.take(i + 1).drop_last() =~= self.active@.take(i as int));
            }
            if tier.can_access(self.active[i].min_tier) {
                out.push(self.active[i].clone());
            }
            i += 1;
        }
        assert(self.active@.take(i as int) =~= self.active@);
        out
    }

    fn position_active(&self, id: &ResourceId) -> (r: Option<usize>)
        ensures
            match r {
                Some(k) => first_index(self.active@, resource_with_id(id@)) == Some(k as int)
                    && k < self.active@.len() && self.active@[k as int].id@ == id@,
                None => first_index(self.active@, resource_with_id(id@)) is None,
            },
    {
        let mut i: usize = 0;
        while i < self.active.len()
            invariant
                i <= self.active@.len(),
                forall|j: int| 0 <= j < i ==> !resource_with_id(id@)(#[trigger] self.active@[j]),
            decreases self.active@.len() - i,
        {
            if self.active[i].id.0 == id.0 {
                proof {
                    lemma_first_index_is(self.active@, resource_with_id(id@), i as int);
                }
                return Some(i);
            }
            i += 1;
        }
        None
    }

    fn position_deleted_latest(&self, id: &ResourceId) -> (r: Option<usize>)
        ensures
            match r {
                Some(k) => last_index(self.deleted@, resource_with_id(id@)) == Some(k as int)
                    && k < self.deleted@.len(),
                None => last_index(self.deleted@, resource_with_id(id@)) is None,
            },
    {
        let mut i: usize = self.deleted.len();
        while i > 0
            invariant
                i <= self.deleted@.len(),
                forall|j: int|
                    i <= j < self.deleted@.len() ==> !resource_with_id(id@)(#[trigger] self.deleted@[j]),
            decreases i,
        {
            i -= 1;
            if self.deleted[i].id.0 == id.0 {
                proof {
                    lemma_last_index_is(self.deleted@, resource_with_id(id@), i as int);
                }
                return Some(i);
            }
        }
        None
    }

    /// Record one admin event on a resource when auditing is on.
    fn emit(
        &mut self,
        actor_id: &CrewLeadId,
        action: AdminAction,
        target_id: String,
        details: Option<String>,
    )
        ensures
            final(self).active_records() == old(self).active_records(),
            final(self).deleted_records() == old(self).deleted_records(),
            final(self).audited() == old(self).audited(),
            stamped(old(self).clock_state(), final(self).clock_state(), old(self).audited(), final(self).audit_log()),
            logged(
                old(self).audit_log(),
                final(self).audit_log(),
                old(self).audited(),
                *actor_id,
                action,
                TargetKind::Resource,
                target_id@,
                text_of(details),
            ),
    {
        match self.audit.take() {
            None => {},
            Some(mut sink) => {
                let event = AdminEvent {
                    id: new_event_id(),
                    actor_id: actor_id.clone(),
                    action,
                    target_kind: TargetKind::Resource,
                    target_id,
                    timestamp: self.clock.now(),
                    details,
                };
                sink.append(event);
                self.audit = Some(sink);
                assert(final(self).audit_log().drop_last() =~= old(self).audit_log());
            },
        }
    }

    /// Crew-Lead-only create. The new record is active, at version 0.
    pub fn create(
        &mut self,
        actor: &Actor,
        id: ResourceId,
        name: String,
        category: String,
        min_tier: Tier,
    ) -> (r: Result<Resource, DomainError>)
        ensures
            old(self).ids_distinct() ==> final(self).ids_distinct(),
            match *actor {
                Actor::Passenger(_) => r == Err::<Resource, DomainError>(
                    DomainError::UnauthorizedActor,
                ) && *final(self) == *old(self),
                Actor::CrewLead(lead) => if first_index(
                    old(self).active_records(),
                    resource_with_id(id@),
                ) is Some {
                    r == Err::<Resource, DomainError>(DomainError::ResourceAlreadyExists)
                        && *final(self) == *old(self)
                } else {
                    let p = Resource { id, name, category, min_tier, deleted_at: None, version: 0 };
                    &&& r == Ok::<Resource, DomainError>(p)
                    &&& final(self).active_records() == old(self).active_records().push(p)
                    &&& final(self).deleted_records() == old(self).deleted_records()
                    &&& final(self).audited() == old(self).audited()
                    &&& stamped(old(self).clock_state(), final(self).clock_state(), old(self).audited(), final(self).audit_log())
                    &&& logged(
                        old(self).audit_log(),
                        final(self).audit_log(),
                        old(self).audited(),
                        lead,
                        AdminAction::ResourceCreated,
                        TargetKind::Resource,
                        id@,
                        Some("min_tier="@ + tier_name(min_tier)),
                    )
                },
            },
    {
        let actor_id = match require_crew_lead(actor) {
            Ok(lead) => lead.clone(),
            Err(e) => return Err(e),
        };
        if self.position_active(&id).is_some() {
            return Err(DomainError::ResourceAlreadyExists);
        }
        let p = Resource { id, name, category, min_tier, deleted_at: None, version: 0 };
        let created = p.clone();
        let target = p.id.0.clone();
        let ghost before = self.active@;
        proof {
            lemma_first_index_facts(before, resource_with_id(p.id@));
        }
        self.active.push(p);
        assert(distinct_resource_ids(before) ==> distinct_resource_ids(self.active@)) by {
            assert forall|i: int, j: int|
                0 <= i < j < self.active@.len() && distinct_resource_ids(before) implies (#[trigger] self.active@[i]).id@
                != (#[trigger] self.active@[j]).id@ by {
                assert(self.active@[i] == before[i]);
                if j == before.len() {
                    assert(!resource_with_id(self.active@[j].id@)(before[i]));
                } else {
                    assert(self.active@[j] == before[j]);
                }
            }
        }
        let mut details = String::from_str("min_tier=");
        details.append(tier_to_str(min_tier));
        self.emit(&actor_id, AdminAction::ResourceCreated, target, Some(details));
        Ok(created)
    }

    /// Crew-Lead-only change of the minimum tier of the active record with
    /// id `id`; the version grows.
    pub fn change_min_tier(&mut self, actor: &Actor, id: &ResourceId, new_tier: Tier) -> (r: Result<
        (),
        DomainError,
    >)
        requires
            old(self).can_bump(*actor, id@),
        ensures
            old(self).ids_distinct() ==> final(self).ids_distinct(),
            match *actor {
                Actor::Passenger(_) => r == Err::<(), DomainError>(DomainError::UnauthorizedActor)
                    && *final(self) == *old(self),
                Actor::CrewLead(lead) => match first_index(
                    old(self).active_records(),
                    resource_with_id(id@),
                ) {
                    None => r == Err::<(), DomainError>(DomainError::ResourceNotFound)
                        && *final(self) == *old(self),
                    Some(i) => {
                        &&& r == Ok::<(), DomainError>(())
                        &&& final(self).active_records() == old(self).active_records().update(
                            i,
                            retiered(old(self).active_records()[i], new_tier),
                        )
                        &&& final(self).deleted_records() == old(self).deleted_records()
                        &&& final(self).audited() == old(self).audited()
                        &&& stamped(old(self).clock_state(), final(self).clock_state(), old(self).audited(), final(self).audit_log())
                        &&& logged(
                            old(self).audit_log(),
                            final(self).audit_log(),
                            old(self).audited(),
                            lead,
                            AdminAction::ResourceMinTierChanged,
                            TargetKind::Resource,
                            id@,
                            Some("min_tier="@ + tier_name(new_tier)),
                        )
                    },
                },
            },
    {
        let actor_id = match require_crew_lead(actor) {
            Ok(lead) => lead.clone(),
            Err(e) => return Err(e),
        };
        let pos = match self.position_active(id) {
            Some(pos) => pos,
            None => return Err(DomainError::ResourceNotFound),
        };
        let mut slot = self.active[pos].clone();
        slot.min_tier = new_tier;
        slot.version = slot.version + 1;
        let ghost before = self.active@;
        self.active.set(pos, slot);
        assert(distinct_resource_ids(before) ==> distinct_resource_ids(self.active@)) by {
            assert forall|i: int, j: int|
                0 <= i < j < self.active@.len() && distinct_resource_ids(before) implies (#[trigger] self.active@[i]).id@
                != (#[trigger] self.active@[j]).id@ by {
                assert(self.active@[i].id@ == before[i].id@);
                assert(self.active@[j].id@ == before[j].id@);
            }
        }
        assert(self.active@ =~= old(self).active@.update(
            pos as int,
            retiered(old(self).active@[pos as int], new_tier),
        ));
        let mut details = String::from_str("min_tier=");
        details.append(tier_to_str(new_tier));
        self.emit(&actor_id, AdminAction::ResourceMinTierChanged, id.0.clone(), Some(details));
        Ok(())
    }

    /// Crew-Lead-only soft delete: the active record with id `id` is stamped
    /// from the clock and moved to the soft-deleted records.
    pub fn soft_delete(&mut self, actor: &Actor, id: &ResourceId) -> (r: Result<(), DomainError>)
        requires
            old(self).can_bump(*actor, id@),
        ensures
            old(self).ids_distinct() ==> final(self).ids_distinct(),
            match *actor {
                Actor::Passenger(_) => r == Err::<(), DomainError>(DomainError::UnauthorizedActor)
                    && *final(self) == *old(self),
                Actor::CrewLead(lead) => match first_index(
                    old(self).active_records(),
                    resource_with_id(id@),
                ) {
                    None => r == Err::<(), DomainError>(DomainError::ResourceNotFound)
                        && *final(self) == *old(self),
                    Some(i) => {
                        &&& r == Ok::<(), DomainError>(())
                        &&& final(self).active_records() == old(self).active_records().remove(i)
                        &&& final(self).deleted_records().len() == old(
                            self,
                        ).deleted_records().len() + 1
                        &&& final(self).deleted_records().drop_last() == old(
                            self,
                        ).deleted_records()
                        &&& retired(
                            old(self).active_records()[i],
                            final(self).deleted_records().last(),
                        )
                        &&& final(self).audited() == old(self).audited()
                        &&& stamped_deletion(
                            old(self).clock_state(),
                            final(self).clock_state(),
                            final(self).deleted_records().last().deleted_at,
                            old(self).audited(),
                            final(self).audit_log(),
                        )
                        &&& logged(
                            old(self).audit_log(),
                            final(self).audit_log(),
                            old(self).audited(),
                            lead,
                            AdminAction::ResourceDeleted,
                            TargetKind::Resource,
                            id@,
                            None,
                        )
                    },
                },
            },
    {
        let actor_id = match require_crew_lead(actor) {
            Ok(lead) => lead.clone(),
            Err(e) => return Err(e),
        };
        let pos = match self.position_active(id) {
            Some(pos) => pos,
            None => return Err(DomainError::ResourceNotFound),
        };
        let ghost before = self.active@;
        let mut p = self.active.remove(pos);
        assert(distinct_resource_ids(before) ==> distinct_resource_ids(self.active@)) by {
            assert forall|i: int, j: int|
                0 <= i < j < self.active@.len() && distinct_resource_ids(before) implies (#[trigger] self.active@[i]).id@
                != (#[trigger] self.active@[j]).id@ by {
                let a: int = if i < pos { i } else { i + 1 };
                let b: int = if j < pos { j } else { j + 1 };
                assert(self.active@[i] == before[a]);
                assert(self.active@[j] == before[b]);
            }
        }
        assert(self.active@ =~= old(self).active@.remove(pos as int));
        let t = self.clock.now();
        let ghost mid = self.clock;
        p.deleted_at = Some(t);
        p.version = p.version + 1;
        self.deleted.push(p);
        assert(self.deleted@.drop_last() =~= old(self).deleted@);
        self.emit(&actor_id, AdminAction::ResourceDeleted, id.0.clone(), None);
        assert(stamped(mid, self.clock_state(), old(self).audited(), self.audit_log()));
        Ok(())
    }

    /// The active record with id `id`; otherwise the most recently
    /// soft-deleted one; otherwise `ResourceNotFound`.
    pub fn get(&self, id: &ResourceId) -> (r: Result<&Resource, DomainError>)
        ensures
            match first_index(self.active_records(), resource_with_id(id@)) {
                Some(i) => r matches Ok(p) && *p == self.active_records()[i],
                None => match last_index(self.deleted_records(), resource_with_id(id@)) {
                    Some(j) => r matches Ok(p) && *p == self.deleted_records()[j],
                    None => r == Err::<&Resource, DomainError>(DomainError::ResourceNotFound),
                },
            },
    {
        match self.position_active(id) {
            Some(i) => Ok(&self.active[i]),
            None => match self.position_deleted_latest(id) {
                Some(j) => Ok(&self.deleted[j]),
                None => Err(DomainError::ResourceNotFound),
            },
        }
    }
}

} // verus!
