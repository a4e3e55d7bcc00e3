//! The clock of a running server: deterministic for the seeded demo world,
//! the wall clock for state restored from storage.
use vstd::prelude::*;
use crate::application::ports::Clock;
use crate::domain::timestamp::Timestamp;
use crate::infrastructure::fake_clock::FakeClock;
use crate::infrastructure::system_clock::SystemClock;

verus! {

/// Either clock, chosen when the server's state is built.
pub enum ServerClock {
    Fake(FakeClock),
    System(SystemClock),
}

impl Clock for ServerClock {
    /// A reading is one of the chosen clock, which stays chosen.
    open spec fn gave(&self, after: Self, t: Timestamp) -> bool {
        match (*self, after) {
            (ServerClock::Fake(a), ServerClock::Fake(b)) => a.gave(b, t),
            (ServerClock::System(a), ServerClock::System(b)) => a.gave(b, t),
            _ => false,
        }
    }

    fn now(&mut self) -> (t: Timestamp) {
        match self {
            ServerClock::Fake(c) => c.now(),
            ServerClock::System(c) => c.now(),
        }
    }
}

} // verus!
