//! Reporting queries over recorded usage events.
use vstd::prelude::*;
use std::collections::HashMap;
use crate::application::ports::UsageEventSource;
use crate::domain::passenger::PassengerId;
use crate::domain::resource::ResourceId;
use crate::domain::text::{
    lemma_precedes_asymmetric, lemma_precedes_total, lemma_precedes_transitive, seq_precedes,
    str_precedes,
};
use crate::domain::tier::Tier;
use crate::domain::usage_event::{Outcome, UsageEvent};

verus! {

/// Allowed and denied attempts counted for one tier.
#[derive(Debug, Clone, Copy, PartialEq, Eq)]
pub struct TierCounts {
    pub allowed: u64,
    pub denied: u64,
}

impl Default for TierCounts {
    fn default() -> (c: Self)
        ensures
            c.allowed == 0,
            c.denied == 0,
    {
        TierCounts { allowed: 0, denied: 0 }
    }
}

/// The counts of every tier, one field per tier.
#[derive(Debug, Clone, Copy, PartialEq, Eq)]
pub struct TierReport {
    pub silver: TierCounts,
    pub gold: TierCounts,
    pub diamond: TierCounts,
    pub platinum: TierCounts,
}

/// The counts a report holds for `t`.
pub open spec fn report_counts(r: TierReport, t: Tier) -> TierCounts {
    match t {
        Tier::Silver => r.silver,
        Tier::Gold => r.gold,
        Tier::Diamond => r.diamond,
        Tier::Platinum => r.platinum,
    }
}

/// The events of passenger `p`, in recorded order.
pub open spec fn history_of(events: Seq<UsageEvent>, p: Seq<char>) -> Seq<UsageEvent> {
    events.filter(|e: UsageEvent| e.passenger_id@ == p)
}

/// How many events were recorded at tier `tier` with outcome `outcome`.
pub open spec fn tally(events: Seq<UsageEvent>, tier: Tier, outcome: Outcome) -> nat {
    events.filter(|e: UsageEvent| e.tier_at_attempt == tier && e.outcome == outcome).len()
}

/// The counts reported for `tier`.
pub open spec fn counts_for(events: Seq<UsageEvent>, tier: Tier) -> TierCounts {
    TierCounts {
        allowed: tally(events, tier, Outcome::Allowed) as u64,
        denied: tally(events, tier, Outcome::Denied) as u64,
    }
}

/// How many allowed uses of resource `id` were recorded.
pub open spec fn allowed_uses(events: Seq<UsageEvent>, id: Seq<char>) -> nat {
    events.filter(|e: UsageEvent| e.outcome == Outcome::Allowed && e.resource_id@ == id).len()
}

/// Report order of resources: more allowed uses first, ties broken by the
/// id in ascending order.
pub open spec fn ranked_before(a: Seq<char>, uses_a: int, b: Seq<char>, uses_b: int) -> bool {
    uses_a > uses_b || (uses_a == uses_b && seq_precedes(a, b))
}

/// Report order on `(id, count)` entries.
pub open spec fn entry_before(x: (ResourceId, u64), y: (ResourceId, u64)) -> bool {
    ranked_before(x.0@, x.1 as int, y.0@, y.1 as int)
}

/// The report order is a strict order: irreflexive, asymmetric, transitive,
/// and total on entries with different ids.
pub proof fn lemma_ranked_order(
    a: Seq<char>,
    ua: int,
    b: Seq<char>,
    ub: int,
    c: Seq<char>,
    uc: int,
)
    ensures
        !ranked_before(a, ua, a, ua),
        ranked_before(a, ua, b, ub) ==> !ranked_before(b, ub, a, ua),
        ranked_before(a, ua, b, ub) && ranked_before(b, ub, c, uc) ==> ranked_before(a, ua, c, uc),
        a != b ==> ranked_before(a, ua, b, ub) || ranked_before(b, ub, a, ua),
{
    lemma_precedes_asymmetric(a, b);
    lemma_precedes_asymmetric(a, a);
    if seq_precedes(a, b) && seq_precedes(b, c) {
        lemma_precedes_transitive(a, b, c);
    }
    if a != b {
        lemma_precedes_total(a, b);
    }
}

/// The resources with at least one allowed use.
pub open spec fn used_resources(events: Seq<UsageEvent>) -> Set<Seq<char>> {
    Set::new(|id: Seq<char>| allowed_uses(events, id) > 0)
}

/// Only resources named by some event are used, so there are finitely many.
pub proof fn lemma_used_resources_finite(events: Seq<UsageEvent>)
    ensures
        used_resources(events).finite(),
        used_resources(events).subset_of(events.map_values(|e: UsageEvent| e.resource_id@).to_set()),
{
    let named = events.map_values(|e: UsageEvent| e.resource_id@);
    assert forall|id: Seq<char>| #[trigger] used_resources(events).contains(id) implies named.to_set().contains(
        id,
    ) by {
        let pred = |e: UsageEvent| e.outcome == Outcome::Allowed && e.resource_id@ == id;
        let f = events.filter(pred);
        events.filter_lemma(pred);
        assert(pred(f[0]));
        assert(f.contains(f[0]));
        events.lemma_filter_contains_rev(pred, f[0]);
        let i = choose|i: int| 0 <= i < events.len() && events[i] == f[0];
        assert(named[i] == id);
        assert(named.contains(id));
    }
    vstd::seq_lib::seq_to_set_is_finite(named);
    vstd::set_lib::lemma_len_subset(used_resources(events), named.to_set());
}

/// A report that meets the contract of `top_resources` lists `n` resources,
/// or every used resource when fewer are used: its length is the smaller
/// of `n` and the number of used resources.
pub proof fn lemma_top_resources_length(events: Seq<UsageEvent>, r: Seq<(ResourceId, u64)>, n: nat)
    requires
        r.len() <= n,
        forall|k: int|
            0 <= k < r.len() ==> #[trigger] r[k].1 == allowed_uses(events, r[k].0@) && r[k].1 > 0,
        forall|k: int, l: int| 0 <= k < l < r.len() ==> entry_before(r[k], r[l]),
        forall|id: Seq<char>|
            #[trigger] allowed_uses(events, id) > 0 && (forall|k: int| 0 <= k < r.len() ==> r[k].0@ != id)
                ==> r.len() == n,
    ensures
        used_resources(events).finite(),
        r.len() == if n <= used_resources(events).len() {
            n
        } else {
            used_resources(events).len()
        },
{
    let used = used_resources(events);
    lemma_used_resources_finite(events);
    let ids = r.map_values(|x: (ResourceId, u64)| x.0@);
    assert forall|k: int, l: int| 0 <= k < ids.len() && 0 <= l < ids.len() && k != l implies ids[k]
        != ids[l] by {
        let (a, b) = if k < l { (k, l) } else { (l, k) };
        assert(entry_before(r[a], r[b]));
        lemma_ranked_order(r[a].0@, r[a].1 as int, r[b].0@, r[b].1 as int, r[a].0@, r[a].1 as int);
    }
    assert(ids.no_duplicates());
    ids.unique_seq_to_set();
    vstd::seq_lib::seq_to_set_is_finite(ids);
    assert forall|id: Seq<char>| #[trigger] ids.to_set().contains(id) implies used.contains(id) by {
        let k = choose|k: int| 0 <= k < ids.len() && ids[k] == id;
        assert(r[k].1 == allowed_uses(events, r[k].0@));
    }
    vstd::set_lib::lemma_len_subset(ids.to_set(), used);
    if r.len() < n {
        assert forall|id: Seq<char>| #[trigger] used.contains(id) implies ids.to_set().contains(id) by {
            if !(exists|k: int| 0 <= k < r.len() && r[k].0@ == id) {
                assert(allowed_uses(events, id) > 0);
            } else {
                let k = choose|k: int| 0 <= k < r.len() && r[k].0@ == id;
                assert(ids[k] == id);
            }
        }
        assert(ids.to_set() =~= used);
    }
}

/// A newly recorded attempt joins the history of its own passenger, at the
/// end, and no other passenger's history.
pub proof fn lemma_history_after_attempt(events: Seq<UsageEvent>, e: UsageEvent, p: Seq<char>)
    ensures
        history_of(events.push(e), p) == if e.passenger_id@ == p {
            history_of(events, p).push(e)
        } else {
            history_of(events, p)
        },
{
    reveal_with_fuel(Seq::<_>::filter, 1);
    assert(events.push(e).drop_last() =~= events);
}

/// A newly recorded attempt adds one to the count of the tier and outcome it
/// was recorded with, and changes no other count: later tier changes of the
/// passenger never move it.
pub proof fn lemma_tally_after_attempt(events: Seq<UsageEvent>, e: UsageEvent, t: Tier, o: Outcome)
    ensures
        tally(events.push(e), t, o) == tally(events, t, o) + if e.tier_at_attempt == t && e.outcome
            == o {
            1int
        } else {
            0int
        },
{
    reveal_with_fuel(Seq::<_>::filter, 1);
    assert(events.push(e).drop_last() =~= events);
}

/// A newly recorded attempt adds one allowed use to its resource when it was
/// allowed, and nothing otherwise.
pub proof fn lemma_allowed_uses_after_attempt(events: Seq<UsageEvent>, e: UsageEvent, id: Seq<char>)
    ensures
        allowed_uses(events.push(e), id) == allowed_uses(events, id) + if e.outcome
            == Outcome::Allowed && e.resource_id@ == id {
            1int
        } else {
            0int
        },
{
    reveal_with_fuel(Seq::<_>::filter, 1);
    assert(events.push(e).drop_last() =~= events);
}

/// One more recorded event adds one to the allowed uses of its resource when
/// it was allowed, and nothing otherwise.
proof fn lemma_allowed_uses_step(events: Seq<UsageEvent>, i: int, id: Seq<char>)
    requires
        0 <= i < events.len(),
    ensures
        allowed_uses(events.take(i + 1), id) == allowed_uses(events.take(i), id) + (if events[i].outcome
            == Outcome::Allowed && events[i].resource_id@ == id {
            1int
        } else {
            0int
        }),
        allowed_uses(events.take(i), id) <= i,
{
    reveal_with_fuel(Seq::<_>::filter, 1);
    assert(events.take(i + 1).drop_last() =~= events.take(i));
    events.take(i).lemma_filter_len(
        |e: UsageEvent| e.outcome == Outcome::Allowed && e.resource_id@ == id,
    );
}

/// Inserting `x` into `s` adds exactly `x` to what `s` contains.
proof fn lemma_insert_contains<A>(s: Seq<A>, p: int, x: A, y: A)
    requires
        0 <= p <= s.len(),
    ensures
        s.insert(p, x).contains(y) <==> (s.contains(y) || y == x),
{
    s.insert_ensures(p, x);
    let t = s.insert(p, x);
    if t.contains(y) {
        let i = choose|i: int| 0 <= i < t.len() && t[i] == y;
        if i < p {
            assert(s[i] == y);
        } else if i > p {
            assert(s[i - 1] == y);
        }
    }
    if s.contains(y) {
        let i = choose|i: int| 0 <= i < s.len() && s[i] == y;
        if i < p {
            assert(t[i] == y);
        } else {
            assert(t[i + 1] == y);
        }
    }
    if y == x {
        assert(t[p] == y);
    }
}

/// The position of `id` among the entries, if present.
fn find_entry(c: &Vec<(ResourceId, u64)>, id: &ResourceId) -> (r: Option<usize>)
    ensures
        match r {
            Some(j) => j < c@.len() && c@[j as int].0@ == id@,
            None => forall|k: int| 0 <= k < c@.len() ==> #[trigger] c@[k].0@ != id@,
        },
{
    let mut j: usize = 0;
    while j < c.len()
        invariant
            j <= c@.len(),
            forall|k: int| 0 <= k < j ==> #[trigger] c@[k].0@ != id@,
        decreases c@.len() - j,
    {
        if c[j].0.0 == id.0 {
            return Some(j);
        }
        j += 1;
    }
    None
}

/// Whether entry `x` comes before entry `y` in report order.
fn entry_precedes(x: &(ResourceId, u64), y: &(ResourceId, u64)) -> (r: bool)
    ensures
        r == entry_before(*x, *y),
{
    x.1 > y.1 || (x.1 == y.1 && str_precedes(x.0.0.as_str(), y.0.0.as_str()))
}

/// Where `x` goes in the report-ordered `s`: after every entry that comes
/// before it.
fn insertion_point(s: &Vec<(ResourceId, u64)>, x: &(ResourceId, u64)) -> (p: usize)
    ensures
        p <= s@.len(),
        forall|q: int| 0 <= q < p ==> !entry_before(*x, #[trigger] s@[q]),
        p < s@.len() ==> entry_before(*x, s@[p as int]),
{
    let mut p: usize = 0;
    while p < s.len()
        invariant
            p <= s@.len(),
            forall|q: int| 0 <= q < p ==> !entry_before(*x, #[trigger] s@[q]),
        decreases s@.len() - p,
    {
        if entry_precedes(x, &s[p]) {
            return p;
        }
        p += 1;
    }
    p
}

/// The entries in report order. Entries must carry distinct ids.
fn rank_entries(c: &Vec<(ResourceId, u64)>) -> (s: Vec<(ResourceId, u64)>)
    requires
        forall|k: int, l: int| 0 <= k < l < c@.len() ==> c@[k].0@ != c@[l].0@,
    ensures
        s@.len() == c@.len(),
        forall|x: (ResourceId, u64)| s@.contains(x) <==> c@.contains(x),
        forall|k: int, l: int| 0 <= k < l < s@.len() ==> entry_before(s@[k], s@[l]),
{
    let mut s: Vec<(ResourceId, u64)> = Vec::new();
    let mut j: usize = 0;
    while j < c.len()
        invariant
            j <= c@.len(),
            forall|k: int, l: int| 0 <= k < l < c@.len() ==> c@[k].0@ != c@[l].0@,
            s@.len() == j,
            forall|x: (ResourceId, u64)| s@.contains(x) <==> c@.take(j as int).contains(x),
            forall|k: int, l: int| 0 <= k < l < s@.len() ==> entry_before(s@[k], s@[l]),
        decreases c@.len() - j,
    {
        let x = (c[j].0.clone(), c[j].1);
        assert(x == c@[j as int]);
        let p = insertion_point(&s, &x);
        let ghost old_s = s@;
        proof {
            // Every entry placed so far has an id other than `x`'s.
            assert forall|q: int| 0 <= q < old_s.len() implies #[trigger] old_s[q].0@ != x.0@ by {
                assert(old_s.contains(old_s[q]));
                assert(c@.take(j as int).contains(old_s[q]));
                let m = choose|m: int| 0 <= m < j && c@.take(j as int)[m] == old_s[q];
                assert(c@[m] == old_s[q]);
            }
        }
        s.insert(p, x);
        proof {
            old_s.insert_ensures(p as int, x);
            assert forall|y: (ResourceId, u64)| s@.contains(y) <==> c@.take(j + 1).contains(y) by {
                lemma_insert_contains(old_s, p as int, x, y);
                assert(c@.take(j + 1) =~= c@.take(j as int).push(c@[j as int]));
                vstd::seq_lib::lemma_seq_contains_after_push(c@.take(j as int), c@[j as int], y);
            }
            assert forall|k: int, l: int| 0 <= k < l < s@.len() implies entry_before(s@[k], s@[l]) by {
                assert(s@ == old_s.insert(p as int, x));
                if l < p {
                    assert(s@[k] == old_s[k]);
                    assert(s@[l] == old_s[l]);
                } else if k > p {
                    assert(s@[k] == old_s[k - 1]);
                    assert(s@[l] == old_s[l - 1]);
                } else if k < p && l > p {
                    assert(s@[k] == old_s[k]);
                    assert(s@[l] == old_s[l - 1]);
                    assert(entry_before(old_s[k], old_s[l - 1]));
                } else if k == p {
                    assert(s@[k] == x);
                    assert(s@[l] == old_s[l - 1]);
                    if l - 1 > p {
                        assert(entry_before(old_s[p as int], old_s[l - 1]));
                    }
                    lemma_ranked_order(x.0@, x.1 as int, old_s[p as int].0@, old_s[p as int].1 as int,
                        old_s[l - 1].0@, old_s[l - 1].1 as int);
                } else {
                    assert(l == p);
                    assert(s@[k] == old_s[k]);
                    assert(s@[l] == x);
                    assert(!entry_before(x, old_s[k]));
                    assert(old_s[k].0@ != x.0@);
                    lemma_ranked_order(old_s[k].0@, old_s[k].1 as int, x.0@, x.1 as int,
                        x.0@, x.1 as int);
                }
            }
        }
        j += 1;
    }
    assert(c@.take(j as int) =~= c@);
    s
}

/// Read-only reports over a usage-event source.
pub struct ReportingService<'a, S: UsageEventSource + ?Sized> {
    source: &'a S,
}

impl<'a, S: UsageEventSource + ?Sized> ReportingService<'a, S> {
    /// The events this service reports on.
    pub closed spec fn events(&self) -> Seq<UsageEvent> {
        self.source.usage_view()
    }

    pub fn new(source: &'a S) -> (s: Self)
        ensures
            s.events() == source.usage_view(),
    {
        ReportingService { source }
    }

    /// Every event of the passenger, in recorded order.
    pub fn personal_history(&self, passenger_id: &PassengerId) -> (r: Vec<UsageEvent>)
        ensures
            r@ == history_of(self.events(), passenger_id@),
    {
        let events = self.source.list();
        let mut out: Vec<UsageEvent> = Vec::new();
        let mut i: usize = 0;
        while i < events.len()
            invariant
                events@ == self.events(),
                i <= events@.len(),
                out@ == history_of(events@.take(i as int), passenger_id@),
            decreases events@.len() - i,
        {
            proof {
                reveal_with_fuel(Seq::<_>::filter, 1);
                assert(events@.take(i + 1).drop_last() =~= events@.take(i as int));
            }
            if events[i].passenger_id.0 == passenger_id.0 {
                out.push(events[i].clone());
            }
            i += 1;
        }
        assert(events@.take(i as int) =~= events@);
        out
    }

    /// One entry per resource with allowed uses: its id and how many.
    fn allowed_counts(&self) -> (c: Vec<(ResourceId, u64)>)
        ensures
            forall|k: int, l: int| 0 <= k < l < c@.len() ==> c@[k].0@ != c@[l].0@,
            forall|k: int|
                0 <= k < c@.len() ==> #[trigger] c@[k].1 == allowed_uses(self.events(), c@[k].0@)
                    && c@[k].1 > 0,
            forall|id: Seq<char>|
                #[trigger] allowed_uses(self.events(), id) > 0 ==> exists|k: int|
                    0 <= k < c@.len() && c@[k].0@ == id,
    {
        let events = self.source.list();
        let mut c: Vec<(ResourceId, u64)> = Vec::new();
        let mut i: usize = 0;
        while i < events.len()
            invariant
                events@ == self.events(),
                i <= events@.len(),
                forall|k: int, l: int| 0 <= k < l < c@.len() ==> c@[k].0@ != c@[l].0@,
                forall|k: int|
                    0 <= k < c@.len() ==> #[trigger] c@[k].1 == allowed_uses(
                        events@.take(i as int),
                        c@[k].0@,
                    ) && c@[k].1 > 0,
                forall|id: Seq<char>|
                    #[trigger] allowed_uses(events@.take(i as int), id) > 0 ==> exists|k: int|
                        0 <= k < c@.len() && c@[k].0@ == id,
            decreases events@.len() - i,
        {
            let ghost old_c = c@;
            let ghost e = events@[i as int];
            proof {
                assert forall|id: Seq<char>| true implies #[trigger] allowed_uses(events@.take(i + 1), id)
                    == allowed_uses(events@.take(i as int), id) + (if e.outcome == Outcome::Allowed
                    && e.resource_id@ == id {
                    1int
                } else {
                    0int
                }) && allowed_uses(events@.take(i as int), id) <= i by {
                    lemma_allowed_uses_step(events@, i as int, id);
                }
            }
            if events[i].outcome == Outcome::Allowed {
                match find_entry(&c, &events[i].resource_id) {
                    Some(j) => {
                        let cnt = c[j].1;
                        assert(cnt == allowed_uses(events@.take(i as int), old_c[j as int].0@));
                        let rid = c[j].0.clone();
                        c.set(j, (rid, cnt + 1));
                        proof {
                            assert forall|k: int|
                                0 <= k < c@.len() implies #[trigger] c@[k].1 == allowed_uses(
                                    events@.take(i + 1),
                                    c@[k].0@,
                                ) && c@[k].1 > 0 by {
                                assert(c@[k].0@ == old_c[k].0@);
                            }
                            assert forall|id: Seq<char>|
                                #[trigger] allowed_uses(events@.take(i + 1), id) > 0 implies exists|
                                    k: int,
                                | 0 <= k < c@.len() && c@[k].0@ == id by {
                                if allowed_uses(events@.take(i as int), id) > 0 {
                                    let k = choose|k: int| 0 <= k < old_c.len() && old_c[k].0@ == id;
                                    assert(c@[k].0@ == id);
                                } else {
                                    assert(c@[j as int].0@ == id);
                                }
                            }
                        }
                    },
                    None => {
                        c.push((events[i].resource_id.clone(), 1));
                        proof {
                            assert forall|k: int|
                                0 <= k < c@.len() implies #[trigger] c@[k].1 == allowed_uses(
                                    events@.take(i + 1),
                                    c@[k].0@,
                                ) && c@[k].1 > 0 by {
                                if k < old_c.len() {
                                    assert(c@[k] == old_c[k]);
                                } else {
                                    if allowed_uses(events@.take(i as int), e.resource_id@) > 0 {
                                        let m = choose|m: int|
                                            0 <= m < old_c.len() && old_c[m].0@ == e.resource_id@;
                                        assert(old_c[m].0@ != e.resource_id@);
                                    }
                                }
                            }
                            assert forall|id: Seq<char>|
                                #[trigger] allowed_uses(events@.take(i + 1), id) > 0 implies exists|
                                    k: int,
                                | 0 <= k < c@.len() && c@[k].0@ == id by {
                                if allowed_uses(events@.take(i as int), id) > 0 {
                                    let k = choose|k: int| 0 <= k < old_c.len() && old_c[k].0@ == id;
                                    assert(c@[k] == old_c[k]);
                                } else {
                                    assert(c@[old_c.len() as int].0@ == id);
                                }
                            }
                        }
                    },
                }
            } else {
                proof {
                    assert forall|k: int|
                        0 <= k < c@.len() implies #[trigger] c@[k].1 == allowed_uses(
                            events@.take(i + 1),
                            c@[k].0@,
                        ) && c@[k].1 > 0 by {
                        assert(allowed_uses(events@.take(i + 1), c@[k].0@) == allowed_uses(
                            events@.take(i as int),
                            c@[k].0@,
                        ));
                    }
                    assert forall|id: Seq<char>|
                        #[trigger] allowed_uses(events@.take(i + 1), id) > 0 implies exists|k: int|
                            0 <= k < c@.len() && c@[k].0@ == id by {
                        assert(allowed_uses(events@.take(i as int), id) > 0);
                    }
                }
            }
            i += 1;
        }
        assert(events@.take(i as int) =~= events@);
        c
    }

    /// The `n` resources with the most allowed uses, with their counts, in
    /// report order (more uses first, ties by ascending id). Resources with
    /// no allowed use are not listed; `n == 0` gives an empty report.
    pub fn top_resources(&self, n: usize) -> (r: Vec<(ResourceId, u64)>)
        ensures
            r@.len() <= n,
            forall|k: int|
                0 <= k < r@.len() ==> #[trigger] r@[k].1 == allowed_uses(self.events(), r@[k].0@)
                    && r@[k].1 > 0,
            forall|k: int, l: int| 0 <= k < l < r@.len() ==> entry_before(r@[k], r@[l]),
            forall|id: Seq<char>|
                #[trigger] allowed_uses(self.events(), id) > 0 && (forall|k: int|
                    0 <= k < r@.len() ==> r@[k].0@ != id) ==> r@.len() == n && forall|k: int|
                    0 <= k < r@.len() ==> ranked_before(
                        #[trigger] r@[k].0@,
                        r@[k].1 as int,
                        id,
                        allowed_uses(self.events(), id) as int,
                    ),
            used_resources(self.events()).finite(),
            r@.len() == if n <= used_resources(self.events()).len() {
                n as int
            } else {
                used_resources(self.events()).len() as int
            },
    {
        if n == 0 {
            proof {
                lemma_top_resources_length(self.events(), Seq::empty(), 0);
            }
            return Vec::new();
        }
        let counts = self.allowed_counts();
        let mut ranked = rank_entries(&counts);
        let ghost full = ranked@;
        ranked.truncate(n);
        proof {
            assert forall|k: int|
                0 <= k < ranked@.len() implies #[trigger] ranked@[k].1 == allowed_uses(
                    self.events(),
                    ranked@[k].0@,
                ) && ranked@[k].1 > 0 by {
                assert(ranked@[k] == full[k]);
                assert(full.contains(full[k]));
                let m = choose|m: int| 0 <= m < counts@.len() && counts@[m] == full[k];
            }
            assert forall|k: int, l: int| 0 <= k < l < ranked@.len() implies entry_before(
                ranked@[k],
                ranked@[l],
            ) by {
                assert(ranked@[k] == full[k]);
                assert(ranked@[l] == full[l]);
            }
            assert forall|id: Seq<char>|
                #[trigger] allowed_uses(self.events(), id) > 0 && (forall|k: int|
                    0 <= k < ranked@.len() ==> ranked@[k].0@ != id) implies ranked@.len() == n
                && forall|k: int|
                0 <= k < ranked@.len() ==> ranked_before(
                    #[trigger] ranked@[k].0@,
                    ranked@[k].1 as int,
                    id,
                    allowed_uses(self.events(), id) as int,
                ) by {
                let m = choose|m: int| 0 <= m < counts@.len() && counts@[m].0@ == id;
                assert(counts@.contains(counts@[m]));
                let q = choose|q: int| 0 <= q < full.len() && full[q] == counts@[m];
                if q < ranked@.len() {
                    assert(ranked@[q] == full[q]);
                }
                assert forall|k: int| 0 <= k < ranked@.len() implies ranked_before(
                    #[trigger] ranked@[k].0@,
                    ranked@[k].1 as int,
                    id,
                    allowed_uses(self.events(), id) as int,
                ) by {
                    assert(ranked@[k] == full[k]);
                    assert(entry_before(full[k], full[q]));
                }
            }
        }
        proof {
            lemma_top_resources_length(self.events(), ranked@, n as nat);
        }
        ranked
    }

    /// The allowed and denied counts of one tier, in a single pass.
    fn count_tier(&self, tier: Tier) -> (c: TierCounts)
        ensures
            c == counts_for(self.events(), tier),
    {
        let events = self.source.list();
        let mut allowed: u64 = 0;
        let mut denied: u64 = 0;
        let mut i: usize = 0;
        while i < events.len()
            invariant
                events@ == self.events(),
                i <= events@.len(),
                allowed == tally(events@.take(i as int), tier, Outcome::Allowed),
                denied == tally(events@.take(i as int), tier, Outcome::Denied),
                allowed + denied <= i,
            decreases events@.len() - i,
        {
            proof {
                reveal_with_fuel(Seq::<_>::filter, 1);
                assert(events@.take(i + 1).drop_last() =~= events@.take(i as int));
            }
            if events[i].tier_at_attempt == tier {
                match events[i].outcome {
                    Outcome::Allowed => {
                        allowed = allowed + 1;
                    },
                    Outcome::Denied => {
                        denied = denied + 1;
                    },
                }
            }
            i += 1;
        }
        assert(events@.take(i as int) =~= events@);
        TierCounts { allowed, denied }
    }

    /// Allowed and denied counts of every tier at the time of the attempt,
    /// Diamond included, with zeros where nothing was recorded.
    pub fn tier_report(&self) -> (r: TierReport)
        ensures
            forall|t: Tier| #[trigger] report_counts(r, t) == counts_for(self.events(), t),
    {
        let r = TierReport {
            silver: self.count_tier(Tier::Silver),
            gold: self.count_tier(Tier::Gold),
            diamond: self.count_tier(Tier::Diamond),
            platinum: self.count_tier(Tier::Platinum),
        };
        assert forall|t: Tier| #[trigger] report_counts(r, t) == counts_for(self.events(), t) by {
            match t {
                Tier::Silver => {},
                Tier::Gold => {},
                Tier::Diamond => {},
                Tier::Platinum => {},
            }
        }
        r
    }

    /// Allowed and denied counts per tier at the time of the attempt, as a
    /// map. Every `Tier` variant appears, Diamond included, with zero counts
    /// where no attempt was recorded at it. The counts are those of
    /// `tier_report`.
    ///
    /// The map's contents are stated under `obeys_key_model::<Tier>()`, the
    /// premise on which vstd specifies `HashMap`; `tier_report` states the
    /// same counts without it.
    pub fn aggregate_by_tier(&self) -> (r: HashMap<Tier, TierCounts>)
        ensures
            vstd::std_specs::hash::obeys_key_model::<Tier>() ==> {
                &&& r@.dom() == set![Tier::Silver, Tier::Gold, Tier::Diamond, Tier::Platinum]
                &&& forall|t: Tier| #[trigger] r@[t] == counts_for(self.events(), t)
            },
    {
        proof {
            broadcast use vstd::std_specs::hash::group_hash_axioms;
        }
        let report = self.tier_report();
        let mut out: HashMap<Tier, TierCounts> = HashMap::new();
        out.insert(Tier::Silver, report.silver);
        out.insert(Tier::Gold, report.gold);
        out.insert(Tier::Diamond, report.diamond);
        out.insert(Tier::Platinum, report.platinum);
        proof {
            if vstd::std_specs::hash::obeys_key_model::<Tier>() {
                assert(out@.dom() =~= set![Tier::Silver, Tier::Gold, Tier::Diamond, Tier::Platinum]);
                assert forall|t: Tier| #[trigger] out@[t] == counts_for(self.events(), t) by {
                    assert(report_counts(report, t) == counts_for(self.events(), t));
                    match t {
                        Tier::Silver => {},
                        Tier::Gold => {},
                        Tier::Diamond => {},
                        Tier::Platinum => {},
                    }
                }
            }
        }
        out
    }
}

} // verus!
