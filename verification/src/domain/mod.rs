//! Pure value objects, errors and events.
pub mod actor;
pub mod admin_event;
pub mod crew_lead;
pub mod errors;
pub mod lookup;
pub mod passenger;
pub mod resource;
pub mod text;
pub mod tier;
pub mod timestamp;
pub mod usage_event;
