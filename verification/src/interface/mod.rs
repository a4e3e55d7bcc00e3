//! HTTP boundary: wire shapes, request validation, and the decisions the
//! server makes per request (status mapping, paging, authentication,
//! conditional requests, idempotent replays, configuration parsing).
pub mod composition_root;
pub mod config;
pub mod dto;
pub mod http;
