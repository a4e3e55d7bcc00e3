//! In-memory append-only admin-event sink with a SHA-256 hash chain for
//! tamper evidence (see `hash_chain`).
use vstd::prelude::*;
use crate::application::ports::AdminEventSink;
use crate::domain::admin_event::AdminEvent;
use crate::infrastructure::hash_chain::{
    chain_of, compute_hash, first_break, last_link, lemma_chain_len, lemma_chain_push, link_hash,
};

verus! {

/// Keeps every appended admin event in order, with `hashes[i]` the chain
/// link stored for event `i`.
#[derive(Debug)]
pub struct InMemoryAdminEventSink {
    events: Vec<AdminEvent>,
    hashes: Vec<String>,
}

impl InMemoryAdminEventSink {
    /// The recorded events, oldest first.
    pub closed spec fn events(&self) -> Seq<AdminEvent> {
        self.events@
    }

    /// The stored chain links, one per recorded event.
    pub closed spec fn links(&self) -> Seq<Seq<char>> {
        self.hashes@.map_values(|h: String| h@)
    }

    /// The stored links are exactly the chain recomputed from the events.
    pub open spec fn chain_intact(&self) -> bool {
        self.links() == chain_of(self.events())
    }

    pub fn new() -> (s: Self)
        ensures
            s.events() == Seq::<AdminEvent>::empty(),
            s.links() == Seq::<Seq<char>>::empty(),
            s.chain_intact(),
    {
        let s = InMemoryAdminEventSink { events: Vec::new(), hashes: Vec::new() };
        assert(s.links() =~= Seq::<Seq<char>>::empty());
        s
    }

    /// The events recorded so far.
    pub fn snapshot(&self) -> (r: Vec<AdminEvent>)
        ensures
            r@ == self.events(),
    {
        let mut out: Vec<AdminEvent> = Vec::new();
        let mut i: usize = 0;
        while i < self.events.len()
            invariant
                i <= self.events@.len(),
                out@ == self.events@.take(i as int),
            decreases self.events@.len() - i,
        {
            out.push(self.events[i].clone());
            i += 1;
            assert(out@ =~= self.events@.take(i as int));
        }
        assert(self.events@.take(i as int) =~= self.events@);
        out
    }

    /// The events paired with their stored links; an event without a stored
    /// link is paired with the empty string.
    pub fn snapshot_with_hashes(&self) -> (r: Vec<(AdminEvent, String)>)
        ensures
            r@.len() == self.events().len(),
            forall|i: int|
                0 <= i < r@.len() ==> (#[trigger] r@[i]).0 == self.events()[i] && r@[i].1@ == (
                if i < self.links().len() {
                    self.links()[i]
                } else {
                    Seq::<char>::empty()
                }),
    {
        let mut out: Vec<(AdminEvent, String)> = Vec::new();
        let mut i: usize = 0;
        while i < self.events.len()
            invariant
                i <= self.events@.len(),
                out@.len() == i,
                forall|j: int|
                    0 <= j < i ==> (#[trigger] out@[j]).0 == self.events@[j] && out@[j].1@ == (
                    if j < self.hashes@.len() {
                        self.hashes@[j]@
                    } else {
                        Seq::<char>::empty()
                    }),
            decreases self.events@.len() - i,
        {
            let link = if i < self.hashes.len() {
                self.hashes[i].clone()
            } else {
                String::new()
            };
            out.push((self.events[i].clone(), link));
            i += 1;
        }
        out
    }

    pub fn len(&self) -> (n: usize)
        ensures
            n == self.events().len(),
    {
        self.events.len()
    }

    pub fn is_empty(&self) -> (b: bool)
        ensures
            b == (self.events().len() == 0),
    {
        self.events.len() == 0
    }

    /// Overwrites the stored link at `index` (no change when out of range).
    /// Used to simulate a tampered log.
    pub fn corrupt_hash_at(&mut self, index: usize, bad_hash: &str)
        ensures
            final(self).events() == old(self).events(),
            final(self).links() == if index < old(self).links().len() {
                old(self).links().update(index as int, bad_hash@)
            } else {
                old(self).links()
            },
    {
        if index < self.hashes.len() {
            self.hashes.set(index, bad_hash.to_owned());
        }
        assert(self.links() =~= if index < old(self).links().len() {
            old(self).links().update(index as int, bad_hash@)
        } else {
            old(self).links()
        });
    }
}

impl Default for InMemoryAdminEventSink {
    fn default() -> (s: Self)
        ensures
            s.events() == Seq::<AdminEvent>::empty(),
            s.links() == Seq::<Seq<char>>::empty(),
    {
        InMemoryAdminEventSink::new()
    }
}

impl AdminEventSink for InMemoryAdminEventSink {
    open spec fn admin_log(&self) -> Seq<AdminEvent> {
        self.events()
    }

    /// Records `event` and its link, chained on the last stored link.
    fn append(&mut self, event: AdminEvent)
        ensures
            final(self).links() == old(self).links().push(
                link_hash(last_link(old(self).links()), event),
            ),
            old(self).chain_intact() ==> final(self).chain_intact(),
    {
        let new_hash = if self.hashes.len() == 0 {
            proof {
                reveal_strlit("genesis");
            }
            compute_hash("genesis", &event)
        } else {
            let last = self.hashes.len() - 1;
            compute_hash(self.hashes[last].as_str(), &event)
        };
        self.events.push(event);
        self.hashes.push(new_hash);
        assert(self.links() =~= old(self).links().push(link_hash(last_link(old(self).links()), event)));
        proof {
            lemma_chain_push(old(self).events(), event);
        }
    }
}

/// The entries a sink with an intact chain hands out (events paired with
/// their links) contain no break.
pub proof fn lemma_intact_snapshot_has_no_break(
    sink: InMemoryAdminEventSink,
    entries: Seq<(AdminEvent, String)>,
)
    requires
        sink.chain_intact(),
        entries.len() == sink.events().len(),
        forall|i: int|
            0 <= i < entries.len() ==> (#[trigger] entries[i]).0 == sink.events()[i]
                && entries[i].1@ == (if i < sink.links().len() {
                sink.links()[i]
            } else {
                Seq::<char>::empty()
            }),
    ensures
        first_break(
            entries.map_values(|p: (AdminEvent, String)| p.0),
            entries.map_values(|p: (AdminEvent, String)| p.1@),
        ) is None,
{
    let events = entries.map_values(|p: (AdminEvent, String)| p.0);
    let stored = entries.map_values(|p: (AdminEvent, String)| p.1@);
    lemma_chain_len(sink.events());
    assert(events =~= sink.events());
    assert(stored =~= chain_of(events));
}

} // verus!
