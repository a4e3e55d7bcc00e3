//! The server-wide audit journal: one hash-chained log that receives the
//! admin events of every service in the order they were emitted.
//!
//! Each service records into a sink of its own; after a mutation the new
//! events of that sink are forwarded here. A cursor per service remembers
//! how much of its sink the journal already holds.
use vstd::prelude::*;
use crate::application::ports::AdminEventSink;
use crate::domain::admin_event::AdminEvent;
use crate::infrastructure::in_memory_admin_event_sink::InMemoryAdminEventSink;

verus! {

/// The service whose audit sink is forwarded.
#[derive(Debug, Clone, Copy, PartialEq, Eq)]
pub enum AuditSource {
    CrewLeads,
    Passengers,
    Resources,
}

/// The events of `events` past the first `cursor`; none when the cursor
/// lies beyond them (the sink was replaced by a shorter one).
pub open spec fn unseen(events: Seq<AdminEvent>, cursor: nat) -> Seq<AdminEvent> {
    if cursor <= events.len() {
        events.skip(cursor as int)
    } else {
        Seq::empty()
    }
}

/// What a sink gained since it was last forwarded is exactly what the next
/// forward hands to the journal; a sink that gained nothing hands nothing.
pub proof fn lemma_forward_takes_what_was_added(before: Seq<AdminEvent>, added: Seq<AdminEvent>)
    ensures
        unseen(before + added, before.len()) == added,
        unseen(before, before.len()) == Seq::<AdminEvent>::empty(),
{
    assert((before + added).skip(before.len() as int) =~= added);
    assert(before.skip(before.len() as int) =~= Seq::<AdminEvent>::empty());
}

/// One log for the whole server, with a forwarding cursor per service.
pub struct AuditJournal {
    log: InMemoryAdminEventSink,
    crew_leads: usize,
    passengers: usize,
    resources: usize,
}

impl AuditJournal {
    /// The journal's log.
    pub closed spec fn journal_log(&self) -> InMemoryAdminEventSink {
        self.log
    }

    /// Every event in the journal, oldest first.
    pub open spec fn entries(&self) -> Seq<AdminEvent> {
        self.journal_log().events()
    }

    /// The stored links are the chain of the entries.
    pub open spec fn intact(&self) -> bool {
        self.journal_log().chain_intact()
    }

    /// How many events of `source`'s sink the journal already holds.
    pub closed spec fn cursor(&self, source: AuditSource) -> nat {
        match source {
            AuditSource::CrewLeads => self.crew_leads as nat,
            AuditSource::Passengers => self.passengers as nat,
            AuditSource::Resources => self.resources as nat,
        }
    }

    /// A journal that continues `log` (events stored earlier), with nothing
    /// forwarded from any service yet.
    pub fn resume(log: InMemoryAdminEventSink) -> (j: Self)
        ensures
            j.journal_log() == log,
            forall|s: AuditSource| #[trigger] j.cursor(s) == 0,
    {
        AuditJournal { log, crew_leads: 0, passengers: 0, resources: 0 }
    }

    /// An empty journal.
    pub fn new() -> (j: Self)
        ensures
            j.entries() == Seq::<AdminEvent>::empty(),
            j.intact(),
            forall|s: AuditSource| #[trigger] j.cursor(s) == 0,
    {
        AuditJournal::resume(InMemoryAdminEventSink::new())
    }

    /// The journal's log, for reading and verification.
    pub fn log(&self) -> (r: &InMemoryAdminEventSink)
        ensures
            *r == self.journal_log(),
    {
        &self.log
    }

    pub fn len(&self) -> (n: usize)
        ensures
            n == self.entries().len(),
    {
        self.log.len()
    }

    fn cursor_of(&self, source: AuditSource) -> (n: usize)
        ensures
            n == self.cursor(source),
    {
        match source {
            AuditSource::CrewLeads => self.crew_leads,
            AuditSource::Passengers => self.passengers,
            AuditSource::Resources => self.resources,
        }
    }

    /// Append the events of `source`'s sink that the journal does not hold
    /// yet, in the sink's order, and return them.
    pub fn forward(&mut self, source: AuditSource, sink: &InMemoryAdminEventSink) -> (fresh: Vec<
        AdminEvent,
    >)
        ensures
            fresh@ == unseen(sink.events(), old(self).cursor(source)),
            final(self).entries() == old(self).entries() + fresh@,
            final(self).cursor(source) == sink.events().len(),
            forall|s: AuditSource| s != source ==> #[trigger] final(self).cursor(s) == old(self).cursor(s),
            old(self).intact() ==> final(self).intact(),
    {
        let events = sink.snapshot();
        let start = self.cursor_of(source);
        let mut fresh: Vec<AdminEvent> = Vec::new();
        if start <= events.len() {
            let mut i: usize = start;
            while i < events.len()
                invariant
                    start <= i <= events@.len(),
                    events@ == sink.events(),
                    start == old(self).cursor(source),
                    fresh@ == events@.subrange(start as int, i as int),
                    self.entries() == old(self).entries() + fresh@,
                    old(self).intact() ==> self.intact(),
                    self.crew_leads == old(self).crew_leads,
                    self.passengers == old(self).passengers,
                    self.resources == old(self).resources,
                decreases events@.len() - i,
            {
                let event = events[i].clone();
                self.log.append(event.clone());
                fresh.push(event);
                i += 1;
                assert(fresh@ =~= events@.subrange(start as int, i as int));
                assert(self.entries() =~= old(self).entries() + fresh@);
            }
            assert(fresh@ =~= events@.skip(start as int));
        }
        let n = events.len();
        match source {
            AuditSource::CrewLeads => self.crew_leads = n,
            AuditSource::Passengers => self.passengers = n,
            AuditSource::Resources => self.resources = n,
        }
        assert forall|s: AuditSource| s != source implies #[trigger] self.cursor(s) == old(self).cursor(s) by {
            match s {
                AuditSource::CrewLeads => {},
                AuditSource::Passengers => {},
                AuditSource::Resources => {},
            }
        }
        assert(fresh@ =~= unseen(sink.events(), old(self).cursor(source)));
        fresh
    }
}

} // verus!
