//! Deterministic clock for tests and the demo world.
use vstd::prelude::*;
use crate::application::ports::Clock;
use crate::domain::timestamp::Timestamp;

verus! {

/// Hands out `start`, `start + 1`, `start + 2`, ... (wrapping at the end of
/// the `i64` range), one value per reading.
pub struct FakeClock {
    next: i64,
}

impl FakeClock {
    /// The value the next reading returns.
    pub closed spec fn upcoming(&self) -> i64 {
        self.next
    }

    pub fn starting_at(start: i64) -> (c: Self)
        ensures
            c.upcoming() == start,
    {
        FakeClock { next: start }
    }
}

impl Default for FakeClock {
    fn default() -> (c: Self)
        ensures
            c.upcoming() == 0,
    {
        FakeClock::starting_at(0)
    }
}

/// Successive readings of one fake clock count up from where it started:
/// while the `i64` range is not exceeded, the `k`-th reading gives the
/// starting value plus `k`, so readings never repeat.
pub proof fn lemma_readings_count_up(states: Seq<FakeClock>, stamps: Seq<Timestamp>)
    requires
        states.len() == stamps.len() + 1,
        forall|k: int| 0 <= k < stamps.len() ==> #[trigger] states[k].gave(states[k + 1], stamps[k]),
        states[0].upcoming() + stamps.len() <= i64::MAX,
    ensures
        forall|k: int| 0 <= k < stamps.len() ==> #[trigger] stamps[k].0 == states[0].upcoming() + k,
        states.last().upcoming() == states[0].upcoming() + stamps.len(),
    decreases stamps.len(),
{
    if stamps.len() > 0 {
        let m = stamps.len() - 1;
        let fewer = states.drop_last();
        assert forall|k: int| 0 <= k < stamps.drop_last().len() implies #[trigger] fewer[k].gave(
            fewer[k + 1],
            stamps.drop_last()[k],
        ) by {
            assert(states[k].gave(states[k + 1], stamps[k]));
        }
        lemma_readings_count_up(fewer, stamps.drop_last());
        assert(states[m].gave(states[m + 1], stamps[m]));
        assert(fewer.last() == states[m]);
        assert forall|k: int| 0 <= k < stamps.len() implies #[trigger] stamps[k].0 == states[0].upcoming()
            + k by {
            if k < m {
                assert(stamps[k] == stamps.drop_last()[k]);
            }
        }
    }
}

impl Clock for FakeClock {
    /// A reading gives the upcoming value and moves on by one.
    open spec fn gave(&self, after: Self, t: Timestamp) -> bool {
        &&& t.0 == self.upcoming()
        &&& after.upcoming() == self.upcoming().wrapping_add(1)
    }

    fn now(&mut self) -> (t: Timestamp)
        ensures
            t.0 == old(self).upcoming(),
            final(self).upcoming() == old(self).upcoming().wrapping_add(1),
    {
        let t = self.next;
        self.next = self.next.wrapping_add(1);
        Timestamp(t)
    }
}

} // verus!
