//! Application layer: services that orchestrate domain types through port
//! traits.
pub mod access_service;
pub mod audit_journal;
pub mod crew_lead_service;
pub mod guards;
pub mod passenger_service;
pub mod ports;
pub mod reporting_service;
pub mod resource_service;
mod event_ids;
