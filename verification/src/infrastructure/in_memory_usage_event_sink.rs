//! In-memory append-only usage-event sink.
use vstd::prelude::*;
use crate::application::ports::{UsageEventSink, UsageEventSource};
use crate::domain::usage_event::UsageEvent;

verus! {

/// Keeps every appended `UsageEvent` in insertion order.
#[derive(Debug)]
pub struct InMemoryUsageEventSink {
    events: Vec<UsageEvent>,
}

impl InMemoryUsageEventSink {
    /// The recorded events, oldest first.
    pub closed spec fn events(&self) -> Seq<UsageEvent> {
        self.events@
    }

    pub fn new() -> (s: Self)
        ensures
            s.events() == Seq::<UsageEvent>::empty(),
    {
        InMemoryUsageEventSink { events: Vec::new() }
    }
}

impl Default for InMemoryUsageEventSink {
    fn default() -> (s: Self)
        ensures
            s.events() == Seq::<UsageEvent>::empty(),
    {
        InMemoryUsageEventSink::new()
    }
}

impl UsageEventSink for InMemoryUsageEventSink {
    open spec fn usage_log(&self) -> Seq<UsageEvent> {
        self.events()
    }

    fn append(&mut self, event: UsageEvent) {
        self.events.push(event);
    }
}

impl UsageEventSource for InMemoryUsageEventSink {
    open spec fn usage_view(&self) -> Seq<UsageEvent> {
        self.events()
    }

    fn list(&self) -> (events: &[UsageEvent]) {
        self.events.as_slice()
    }
}

} // verus!
