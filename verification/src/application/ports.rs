//! Port traits. Concrete adapters live in `crate::infrastructure` (and, for
//! storage-backed ones, in the application binary).
use vstd::prelude::*;
use crate::domain::admin_event::AdminEvent;
use crate::domain::timestamp::Timestamp;
use crate::domain::usage_event::UsageEvent;

verus! {

/// Source of timestamps, injected so services stay deterministic under test.
/// Reading the clock may advance it, hence `&mut self`.
pub trait Clock: Send + Sync + Sized {
    /// A reading of the clock in state `self` may give `t` and leave the
    /// clock in state `after`.
    spec fn gave(&self, after: Self, t: Timestamp) -> bool;

    fn now(&mut self) -> (t: Timestamp)
        ensures
            old(self).gave(*final(self), t),
    ;
}

/// When auditing is on, the clock went from `before` to `after` in the
/// reading that stamped the last event of `log`; otherwise it was not read.
pub open spec fn stamped<C: Clock>(before: C, after: C, audited: bool, log: Seq<AdminEvent>) -> bool {
    if audited {
        before.gave(after, log.last().timestamp)
    } else {
        after == before
    }
}

/// A deletion stamp `stamp` was read from the clock in state `before`, and the
/// clock then went on to `after` as `stamped` says of the audit event.
pub open spec fn stamped_deletion<C: Clock>(
    before: C,
    after: C,
    stamp: Option<Timestamp>,
    audited: bool,
    log: Seq<AdminEvent>,
) -> bool {
    match stamp {
        Some(t) => exists|mid: C| before.gave(mid, t) && #[trigger] stamped(mid, after, audited, log),
        None => false,
    }
}

/// Append-only sink for `UsageEvent`s.
pub trait UsageEventSink: Send + Sync {
    /// Every event appended so far, oldest first.
    spec fn usage_log(&self) -> Seq<UsageEvent>;

    fn append(&mut self, event: UsageEvent)
        ensures
            final(self).usage_log() == old(self).usage_log().push(event),
    ;
}

/// Read-only view over recorded `UsageEvent`s, for reporting.
pub trait UsageEventSource: Send + Sync {
    /// The events the source exposes, oldest first.
    spec fn usage_view(&self) -> Seq<UsageEvent>;

    fn list(&self) -> (events: &[UsageEvent])
        ensures
            events@ == self.usage_view(),
    ;
}

/// Append-only sink for `AdminEvent`s.
pub trait AdminEventSink: Send + Sync {
    /// Every event appended so far, oldest first.
    spec fn admin_log(&self) -> Seq<AdminEvent>;

    fn append(&mut self, event: AdminEvent)
        ensures
            final(self).admin_log() == old(self).admin_log().push(event),
    ;
}

/// The log of an optional audit sink; empty when auditing is off.
pub open spec fn log_of<A: AdminEventSink>(audit: Option<A>) -> Seq<AdminEvent> {
    match audit {
        Some(a) => a.admin_log(),
        None => Seq::empty(),
    }
}

} // verus!
