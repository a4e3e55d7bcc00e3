//! Access checks: the runtime permission decision and its usage record.
use vstd::prelude::*;
use crate::application::event_ids::new_event_id;
use crate::application::passenger_service::{PassengerService, passenger_with_id};
use crate::application::ports::{AdminEventSink, Clock, UsageEventSink};
use crate::application::resource_service::{ResourceService, resource_with_id};
use crate::domain::actor::Actor;
use crate::domain::admin_event::is_uuid_v4_text;
use crate::domain::errors::DomainError;
use crate::domain::lookup::{first_index, lemma_first_index_is};
use crate::domain::passenger::{Passenger, PassengerId};
use crate::domain::resource::{Resource, ResourceId};
use crate::domain::tier::grants;
use crate::domain::usage_event::{Outcome, UsageEvent};

verus! {

/// The outcome the rules give to passenger `p` using resource `q`.
pub open spec fn decided_outcome(p: Passenger, q: Resource) -> Outcome {
    if grants(p.tier, q.min_tier) {
        Outcome::Allowed
    } else {
        Outcome::Denied
    }
}

/// `e` records an attempt by `p` on `q`, with both tiers snapshotted and
/// the outcome the rules give, under a fresh UUID v4 id.
pub open spec fn records_attempt(e: UsageEvent, p: Passenger, q: Resource) -> bool {
    &&& e.passenger_id == p.id
    &&& e.resource_id == q.id
    &&& e.tier_at_attempt == p.tier
    &&& e.min_tier_at_attempt == q.min_tier
    &&& e.outcome == decided_outcome(p, q)
    &&& is_uuid_v4_text(e.id@)
}

/// Decides access attempts and records each decided attempt, allowed or
/// denied, in the usage sink `S`, stamped with the next reading of the
/// clock `C`.
pub struct AccessService<C: Clock, S: UsageEventSink> {
    clock: C,
    sink: S,
}

fn find_passenger(list: &[Passenger], id: &PassengerId) -> (r: Option<usize>)
    ensures
        match r {
            Some(k) => first_index(list@, passenger_with_id(id@)) == Some(k as int) && k < list@.len(),
            None => first_index(list@, passenger_with_id(id@)) is None,
        },
{
    let mut i: usize = 0;
    while i < list.len()
        invariant
            i <= list@.len(),
            forall|j: int| 0 <= j < i ==> !passenger_with_id(id@)(#[trigger] list@[j]),
        decreases list@.len() - i,
    {
        if list[i].id.0 == id.0 {
            proof {
                lemma_first_index_is(list@, passenger_with_id(id@), i as int);
            }
            return Some(i);
        }
        i += 1;
    }
    None
}

fn find_resource(list: &[Resource], id: &ResourceId) -> (r: Option<usize>)
    ensures
        match r {
            Some(k) => first_index(list@, resource_with_id(id@)) == Some(k as int) && k < list@.len(),
            None => first_index(list@, resource_with_id(id@)) is None,
        },
{
    let mut i: usize = 0;
    while i < list.len()
        invariant
            i <= list@.len(),
            forall|j: int| 0 <= j < i ==> !resource_with_id(id@)(#[trigger] list@[j]),
        decreases list@.len() - i,
    {
        if list[i].id.0 == id.0 {
            proof {
                lemma_first_index_is(list@, resource_with_id(id@), i as int);
            }
            return Some(i);
        }
        i += 1;
    }
    None
}

impl<C: Clock, S: UsageEventSink> AccessService<C, S> {
    /// The sink the service records into.
    pub closed spec fn sink_state(&self) -> S {
        self.sink
    }

    /// The current state of the service's clock.
    pub closed spec fn clock_state(&self) -> C {
        self.clock
    }

    /// Every attempt recorded so far, oldest first.
    pub open spec fn recorded(&self) -> Seq<UsageEvent> {
        self.sink_state().usage_log()
    }

    pub fn new(clock: C, sink: S) -> (s: Self)
        ensures
            s.sink_state() == sink,
            s.clock_state() == clock,
    {
        AccessService { clock, sink }
    }

    pub fn sink(&self) -> (r: &S)
        ensures
            *r == self.sink_state(),
    {
        &self.sink
    }

    /// A passenger actor attempts to use the active resource `resource_id`.
    ///
    /// Only a passenger may attempt (else `UnauthorizedActor`); the
    /// passenger must be active (else `PassengerNotFound`) and the resource
    /// active (else `ResourceNotFound`); no event is recorded for these.
    /// Otherwise the clock is read once and exactly one event is recorded,
    /// stamped with that reading, whose outcome follows the tiers; a denied
    /// attempt returns `AccessDenied`.
    pub fn use_resource<PC: Clock, PA: AdminEventSink, RC: Clock, RA: AdminEventSink>(
        &mut self,
        actor: &Actor,
        passengers: &PassengerService<PC, PA>,
        resources: &ResourceService<RC, RA>,
        resource_id: &ResourceId,
    ) -> (r: Result<UsageEvent, DomainError>)
        ensures
            match *actor {
                Actor::CrewLead(_) => r == Err::<UsageEvent, DomainError>(
                    DomainError::UnauthorizedActor,
                ) && *final(self) == *old(self),
                Actor::Passenger(pid) => match first_index(
                    passengers.active_records(),
                    passenger_with_id(pid@),
                ) {
                    None => r == Err::<UsageEvent, DomainError>(DomainError::PassengerNotFound)
                        && *final(self) == *old(self),
                    Some(pi) => match first_index(
                        resources.active_records(),
                        resource_with_id(resource_id@),
                    ) {
                        None => r == Err::<UsageEvent, DomainError>(DomainError::ResourceNotFound)
                            && *final(self) == *old(self),
                        Some(ri) => {
                            let p = passengers.active_records()[pi];
                            let q = resources.active_records()[ri];
                            let e = final(self).recorded().last();
                            &&& final(self).recorded().len() == old(self).recorded().len() + 1
                            &&& final(self).recorded().drop_last() == old(self).recorded()
                            &&& records_attempt(e, p, q)
                            &&& old(self).clock_state().gave(final(self).clock_state(), e.timestamp)
                            &&& if grants(p.tier, q.min_tier) {
                                r == Ok::<UsageEvent, DomainError>(e)
                            } else {
                                r == Err::<UsageEvent, DomainError>(DomainError::AccessDenied)
                            }
                        },
                    },
                },
            },
    {
        let passenger_id = match actor {
            Actor::Passenger(id) => id,
            Actor::CrewLead(_) => return Err(DomainError::UnauthorizedActor),
        };
        let active_passengers = passengers.list();
        let pi = match find_passenger(active_passengers, passenger_id) {
            Some(pi) => pi,
            None => return Err(DomainError::PassengerNotFound),
        };
        let active_resources = resources.list();
        let ri = match find_resource(active_resources, resource_id) {
            Some(ri) => ri,
            None => return Err(DomainError::ResourceNotFound),
        };
        let passenger = &active_passengers[pi];
        let resource = &active_resources[ri];
        let allowed = passenger.tier.can_access(resource.min_tier);
        let event = UsageEvent {
            id: new_event_id(),
            passenger_id: passenger.id.clone(),
            resource_id: resource.id.clone(),
            tier_at_attempt: passenger.tier,
            min_tier_at_attempt: resource.min_tier,
            timestamp: self.clock.now(),
            outcome: if allowed {
                Outcome::Allowed
            } else {
                Outcome::Denied
            },
        };
        let ghost before = self.recorded();
        self.sink.append(event.clone());
        assert(self.recorded().drop_last() =~= before);
        if allowed {
            Ok(event)
        } else {
            Err(DomainError::AccessDenied)
        }
    }
}

} // verus!
