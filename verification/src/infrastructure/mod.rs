//! Infrastructure adapters: clocks, in-memory event sinks, the audit hash
//! chain and the text labels used when events are stored.
pub mod fake_clock;
pub mod hash_chain;
pub mod in_memory_admin_event_sink;
pub mod in_memory_usage_event_sink;
pub mod labels;
pub mod server_clock;
pub mod system_clock;

pub use fake_clock::FakeClock;
