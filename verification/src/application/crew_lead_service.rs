//! Crew Lead roster.
use vstd::prelude::*;
use crate::application::event_ids::new_event_id;
use crate::application::ports::{AdminEventSink, Clock};
use crate::domain::admin_event::{AdminAction, AdminEvent, TargetKind, logged};
use crate::domain::crew_lead::{CrewLead, CrewLeadId};
use crate::domain::errors::DomainError;
use crate::domain::lookup::{first_index, lemma_first_index_is};
use crate::infrastructure::fake_clock::FakeClock;
use crate::infrastructure::in_memory_admin_event_sink::InMemoryAdminEventSink;

verus! {

/// No two leads share an id.
pub open spec fn distinct_ids(s: Seq<CrewLead>) -> bool {
    forall|i: int, j: int| 0 <= i < j < s.len() ==> (#[trigger] s[i]).id@ != (#[trigger] s[j]).id@
}

/// Exactly three leads with distinct ids.
pub open spec fn valid_roster(s: Seq<CrewLead>) -> bool {
    s.len() == 3 && distinct_ids(s)
}

/// The lead carries the id `id`.
pub open spec fn lead_with_id(id: Seq<char>) -> spec_fn(CrewLead) -> bool {
    |l: CrewLead| l.id@ == id
}

/// Some lead other than the one at `slot` carries the id `id`.
pub open spec fn taken_elsewhere(s: Seq<CrewLead>, slot: int, id: Seq<char>) -> bool {
    exists|i: int| 0 <= i < s.len() && i != slot && (#[trigger] s[i]).id@ == id
}

/// When auditing is on, the clock went from `before` to `after` in the
/// reading that stamped the last event of `log`; otherwise there is no clock.
pub open spec fn clock_stamped<C: Clock>(before: Option<C>, after: Option<C>, log: Seq<AdminEvent>) -> bool {
    match before {
        Some(b) => after matches Some(a) && b.gave(a, log.last().timestamp),
        None => after is None,
    }
}

struct AuditTrail<C: Clock, A: AdminEventSink> {
    clock: C,
    sink: A,
}

/// The canonical roster of exactly three Crew Leads with distinct ids, in
/// insertion order, optionally recording bootstrap and replacement in the
/// audit sink `A` with timestamps from `C`.
pub struct CrewLeadService<C: Clock = FakeClock, A: AdminEventSink = InMemoryAdminEventSink> {
    roster: Roster,
    audit: Option<AuditTrail<C, A>>,
}

/// Exactly three leads with distinct ids, whatever happens to them.
struct Roster {
    leads: Vec<CrewLead>,
}

impl Roster {
    #[verifier::type_invariant]
    spec fn roster_is_valid(self) -> bool {
        valid_roster(self.leads@)
    }
}

impl CrewLeadService {
    /// Seed the roster with exactly three leads of distinct ids.
    pub fn bootstrap(leads: Vec<CrewLead>) -> (r: Result<Self, DomainError>)
        ensures
            r is Ok <==> valid_roster(leads@),
            match r {
                Ok(svc) => svc.roster() == leads@ && !svc.audited(),
                Err(e) => e == DomainError::CrewLeadBootstrapInvalid,
            },
    {
        CrewLeadService::seeded(leads)
    }
}

impl<C: Clock, A: AdminEventSink> CrewLeadService<C, A> {
    /// Current leads, in insertion order.
    pub closed spec fn roster(&self) -> Seq<CrewLead> {
        self.roster.leads@
    }

    pub closed spec fn audited(&self) -> bool {
        self.audit is Some
    }

    /// Events in the audit sink (empty without one).
    pub closed spec fn audit_log(&self) -> Seq<AdminEvent> {
        match self.audit {
            Some(trail) => trail.sink.admin_log(),
            None => Seq::empty(),
        }
    }

    /// The state of the clock that stamps audit events, when auditing is on.
    pub closed spec fn clock_state(&self) -> Option<C> {
        match self.audit {
            Some(trail) => Some(trail.clock),
            None => None,
        }
    }

    /// The audit sink, when auditing is on.
    pub closed spec fn audit_sink(&self) -> Option<A> {
        match self.audit {
            Some(trail) => Some(trail.sink),
            None => None,
        }
    }

    fn seeded(leads: Vec<CrewLead>) -> (r: Result<Self, DomainError>)
        ensures
            r is Ok <==> valid_roster(leads@),
            match r {
                Ok(svc) => svc.roster() == leads@ && !svc.audited(),
                Err(e) => e == DomainError::CrewLeadBootstrapInvalid,
            },
    {
        if leads.len() != 3 {
            return Err(DomainError::CrewLeadBootstrapInvalid);
        }
        let mut i: usize = 0;
        while i < leads.len()
            invariant
                leads@.len() == 3,
                i <= 3,
                forall|a: int, b: int|
                    0 <= a < i && a < b < 3 ==> (#[trigger] leads@[a]).id@ != (#[trigger] leads@[b]).id@,
            decreases 3 - i,
        {
            let mut j: usize = i + 1;
            while j < leads.len()
                invariant
                    leads@.len() == 3,
                    i < 3,
                    i + 1 <= j <= 3,
                    forall|a: int, b: int|
                        0 <= a < i && a < b < 3 ==> (#[trigger] leads@[a]).id@ != (#[trigger] leads@[b]).id@,
                    forall|b: int| i < b < j ==> leads@[i as int].id@ != (#[trigger] leads@[b]).id@,
                decreases 3 - j,
            {
                if leads[i].id.0 == leads[j].id.0 {
                    return Err(DomainError::CrewLeadBootstrapInvalid);
                }
                j += 1;
            }
            i += 1;
        }
        Ok(CrewLeadService { roster: Roster { leads }, audit: None })
    }

    /// Rebuild a roster saved earlier: the same checks as `bootstrap`, with
    /// later mutations audited in `sink` and no event recorded for the
    /// restore itself.
    pub fn restore(leads: Vec<CrewLead>, clock: C, sink: A) -> (r: Result<Self, DomainError>)
        ensures
            r is Ok <==> valid_roster(leads@),
            match r {
                Ok(svc) => {
                    &&& svc.roster() == leads@
                    &&& svc.audited()
                    &&& svc.audit_log() == sink.admin_log()
                    &&& svc.clock_state() == Some(clock)
                },
                Err(e) => e == DomainError::CrewLeadBootstrapInvalid,
            },
    {
        let mut svc = match CrewLeadService::<C, A>::seeded(leads) {
            Ok(svc) => svc,
            Err(e) => return Err(e),
        };
        svc.audit = Some(AuditTrail { clock, sink });
        Ok(svc)
    }

    /// Seed the roster and record one `CrewLeadBootstrapped` event whose
    /// actor and target are the first lead, with details `count=3`.
    pub fn bootstrap_audited(leads: Vec<CrewLead>, clock: C, sink: A) -> (r: Result<Self, DomainError>)
        ensures
            r is Ok <==> valid_roster(leads@),
            match r {
                Ok(svc) => {
                    &&& svc.roster() == leads@
                    &&& svc.audited()
                    &&& logged(
                        sink.admin_log(),
                        svc.audit_log(),
                        true,
                        leads@[0].id,
                        AdminAction::CrewLeadBootstrapped,
                        TargetKind::CrewLead,
                        leads@[0].id@,
                        Some("count="@ + "3"@),
                    )
                    &&& clock_stamped(Some(clock), svc.clock_state(), svc.audit_log())
                },
                Err(e) => e == DomainError::CrewLeadBootstrapInvalid,
            },
    {
        let svc = match CrewLeadService::<C, A>::seeded(leads) {
            Ok(svc) => svc,
            Err(e) => return Err(e),
        };
        proof {
            use_type_invariant(&svc.roster);
        }
        let mut clock = clock;
        let mut sink = sink;
        let ghost before = sink.admin_log();
        let actor_id = svc.roster.leads[0].id.clone();
        let target_id = actor_id.0.clone();
        // The roster holds exactly three leads here.
        let mut details = String::from_str("count=");
        details.append("3");
        let event = AdminEvent {
            id: new_event_id(),
            actor_id,
            action: AdminAction::CrewLeadBootstrapped,
            target_kind: TargetKind::CrewLead,
            target_id,
            timestamp: clock.now(),
            details: Some(details),
        };
        sink.append(event);
        let mut svc = svc;
        svc.audit = Some(AuditTrail { clock, sink });
        assert(svc.audit_log().drop_last() =~= before);
        Ok(svc)
    }

    /// Always refused: the roster is capped at three.
    pub fn add(&mut self, lead: CrewLead) -> (r: Result<(), DomainError>)
        ensures
            r == Err::<(), DomainError>(DomainError::CrewLeadLimitReached),
            *final(self) == *old(self),
    {
        Err(DomainError::CrewLeadLimitReached)
    }

    /// Always refused: removal would break the exactly-three rule; use
    /// `replace` to rotate a lead.
    pub fn remove(&mut self, id: &CrewLeadId) -> (r: Result<(), DomainError>)
        ensures
            r == Err::<(), DomainError>(DomainError::CrewLeadMinimumBreached),
            *final(self) == *old(self),
    {
        Err(DomainError::CrewLeadMinimumBreached)
    }

    fn position_of(&self, id: &CrewLeadId) -> (r: Option<usize>)
        ensures
            match r {
                Some(k) => first_index(self.roster(), lead_with_id(id@)) == Some(k as int) && k
                    < self.roster().len() && self.roster()[k as int].id@ == id@,
                None => first_index(self.roster(), lead_with_id(id@)) is None,
            },
    {
        let leads = &self.roster.leads;
        let mut i: usize = 0;
        while i < leads.len()
            invariant
                leads@ == self.roster(),
                i <= leads@.len(),
                forall|j: int| 0 <= j < i ==> !lead_with_id(id@)(#[trigger] leads@[j]),
            decreases leads@.len() - i,
        {
            if leads[i].id.0 == id.0 {
                proof {
                    lemma_first_index_is(leads@, lead_with_id(id@), i as int);
                }
                return Some(i);
            }
            i += 1;
        }
        None
    }

    fn clashes_elsewhere(&self, slot: usize, id: &CrewLeadId) -> (b: bool)
        ensures
            b == taken_elsewhere(self.roster(), slot as int, id@),
    {
        let leads = &self.roster.leads;
        let mut i: usize = 0;
        while i < leads.len()
            invariant
                leads@ == self.roster(),
                i <= leads@.len(),
                forall|j: int| 0 <= j < i && j != slot ==> (#[trigger] leads@[j]).id@ != id@,
            decreases leads@.len() - i,
        {
            if i != slot && leads[i].id.0 == id.0 {
                return true;
            }
            i += 1;
        }
        false
    }

    /// Swap the lead `old_id` for `new_lead` in place. Keeping the same id
    /// is allowed; taking the id of another current lead is not.
    pub fn replace(&mut self, old_id: &CrewLeadId, new_lead: CrewLead) -> (r: Result<(), DomainError>)
        ensures
            match first_index(old(self).roster(), lead_with_id(old_id@)) {
                None => r == Err::<(), DomainError>(DomainError::CrewLeadNotFound) && *final(self)
                    == *old(self),
                Some(slot) => if taken_elsewhere(old(self).roster(), slot, new_lead.id@) {
                    r == Err::<(), DomainError>(DomainError::CrewLeadAlreadyExists) && *final(self)
                        == *old(self)
                } else {
                    &&& r == Ok::<(), DomainError>(())
                    &&& final(self).roster() == old(self).roster().update(slot, new_lead)
                    &&& final(self).audited() == old(self).audited()
                    &&& final(self).audit_log() == old(self).audit_log()
                    &&& final(self).clock_state() == old(self).clock_state()
                },
            },
    {
        proof {
            use_type_invariant(&self.roster);
        }
        let slot = match self.position_of(old_id) {
            Some(slot) => slot,
            None => return Err(DomainError::CrewLeadNotFound),
        };
        if self.clashes_elsewhere(slot, &new_lead.id) {
            return Err(DomainError::CrewLeadAlreadyExists);
        }
        proof {
            let s = self.roster().update(slot as int, new_lead);
            assert forall|i: int, j: int| 0 <= i < j < s.len() implies (#[trigger] s[i]).id@ != (
            #[trigger] s[j]).id@ by {
                if i != slot && j != slot {
                    assert(s[i] == self.roster()[i] && s[j] == self.roster()[j]);
                } else if i == slot {
                    assert(s[j] == self.roster()[j]);
                } else {
                    assert(s[i] == self.roster()[i]);
                }
            }
        }
        let mut leads = self.roster.leads.clone();
        assert(leads@ =~= self.roster());
        leads.set(slot, new_lead);
        self.roster = Roster { leads };
        Ok(())
    }

    /// Current leads in insertion order: always exactly three, with
    /// distinct ids.
    pub fn list(&self) -> (r: &[CrewLead])
        ensures
            r@ == self.roster(),
            valid_roster(r@),
    {
        proof {
            use_type_invariant(&self.roster);
        }
        self.roster.leads.as_slice()
    }

    /// The audit sink, when auditing is on.
    pub fn audit(&self) -> (r: Option<&A>)
        ensures
            match r {
                Some(a) => self.audit_sink() == Some(*a) && a.admin_log() == self.audit_log()
                    && self.audited(),
                None => self.audit_sink() is None && !self.audited(),
            },
    {
        match &self.audit {
            Some(trail) => Some(&trail.sink),
            None => None,
        }
    }

    /// `replace`, recording one `CrewLeadReplaced` event by `actor_id`
    /// whose target is the new lead, with details `replaced=<old_id>`.
    pub fn replace_audited(&mut self, actor_id: &CrewLeadId, old_id: &CrewLeadId, new_lead: CrewLead) -> (r:
        Result<(), DomainError>)
        ensures
            match first_index(old(self).roster(), lead_with_id(old_id@)) {
                None => r == Err::<(), DomainError>(DomainError::CrewLeadNotFound) && *final(self)
                    == *old(self),
                Some(slot) => if taken_elsewhere(old(self).roster(), slot, new_lead.id@) {
                    r == Err::<(), DomainError>(DomainError::CrewLeadAlreadyExists) && *final(self)
                        == *old(self)
                } else {
                    &&& r == Ok::<(), DomainError>(())
                    &&& final(self).roster() == old(self).roster().update(slot, new_lead)
                    &&& final(self).audited() == old(self).audited()
                    &&& logged(
                        old(self).audit_log(),
                        final(self).audit_log(),
                        old(self).audited(),
                        *actor_id,
                        AdminAction::CrewLeadReplaced,
                        TargetKind::CrewLead,
                        new_lead.id@,
                        Some("replaced="@ + old_id@),
                    )
                    &&& clock_stamped(old(self).clock_state(), final(self).clock_state(), final(self).audit_log())
                },
            },
    {
        let new_id = new_lead.id.clone();
        match self.replace(old_id, new_lead) {
            Ok(()) => {},
            Err(e) => return Err(e),
        }
        match self.audit.take() {
            None => {},
            Some(trail) => {
                let AuditTrail { mut clock, mut sink } = trail;
                let mut details = String::from_str("replaced=");
                details.append(old_id.0.as_str());
                let event = AdminEvent {
                    id: new_event_id(),
                    actor_id: actor_id.clone(),
                    action: AdminAction::CrewLeadReplaced,
                    target_kind: TargetKind::CrewLead,
                    target_id: new_id.0,
                    timestamp: clock.now(),
                    details: Some(details),
                };
                let ghost before = sink.admin_log();
                sink.append(event);
                self.audit = Some(AuditTrail { clock, sink });
                assert(self.audit_log().drop_last() =~= before);
            },
        }
        Ok(())
    }
}

} // verus!
