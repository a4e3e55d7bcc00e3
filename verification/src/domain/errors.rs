//! Domain error type.
use vstd::prelude::*;

verus! {

/// Every error the domain and application layers can raise.
#[derive(Debug, Clone, Copy, PartialEq, Eq)]
#[non_exhaustive]
pub enum DomainError {
    /// `add` while the roster already holds three leads.
    CrewLeadLimitReached,
    /// `remove` is always refused: it would break the exactly-three rule.
    CrewLeadMinimumBreached,
    /// The incoming lead's id duplicates another current lead.
    CrewLeadAlreadyExists,
    /// `old_id` is not a current lead.
    CrewLeadNotFound,
    /// Bootstrap input is not exactly three leads with distinct ids.
    CrewLeadBootstrapInvalid,
    /// The actor lacks the permission the operation needs.
    UnauthorizedActor,
    /// An active passenger with the same id already exists.
    PassengerAlreadyExists,
    /// No active (or, for lookups, any) passenger with that id.
    PassengerNotFound,
    /// An active resource with the same id already exists.
    ResourceAlreadyExists,
    /// No active (or, for lookups, any) resource with that id.
    ResourceNotFound,
    /// The passenger's tier ranks below the resource's minimum tier.
    AccessDenied,
    /// A conditional request named a version other than the current one.
    VersionConflict,
}

impl DomainError {
    /// Human-readable message for the error.
    pub fn message(&self) -> (m: &'static str)
        ensures
            m@ == error_message(*self),
    {
        match self {
            DomainError::CrewLeadLimitReached => "crew lead limit reached (max 3)",
            DomainError::CrewLeadMinimumBreached => "crew lead minimum breached (must keep 3)",
            DomainError::CrewLeadAlreadyExists => "crew lead already exists",
            DomainError::CrewLeadNotFound => "crew lead not found",
            DomainError::CrewLeadBootstrapInvalid => "crew lead bootstrap invalid",
            DomainError::UnauthorizedActor => "unauthorized actor",
            DomainError::PassengerAlreadyExists => "passenger already exists",
            DomainError::PassengerNotFound => "passenger not found",
            DomainError::ResourceAlreadyExists => "resource already exists",
            DomainError::ResourceNotFound => "resource not found",
            DomainError::AccessDenied => "access denied",
            DomainError::VersionConflict => "version conflict",
        }
    }
}

/// The message text of each error.
pub open spec fn error_message(e: DomainError) -> Seq<char> {
    match e {
        DomainError::CrewLeadLimitReached => "crew lead limit reached (max 3)"@,
        DomainError::CrewLeadMinimumBreached => "crew lead minimum breached (must keep 3)"@,
        DomainError::CrewLeadAlreadyExists => "crew lead already exists"@,
        DomainError::CrewLeadNotFound => "crew lead not found"@,
        DomainError::CrewLeadBootstrapInvalid => "crew lead bootstrap invalid"@,
        DomainError::UnauthorizedActor => "unauthorized actor"@,
        DomainError::PassengerAlreadyExists => "passenger already exists"@,
        DomainError::PassengerNotFound => "passenger not found"@,
        DomainError::ResourceAlreadyExists => "resource already exists"@,
        DomainError::ResourceNotFound => "resource not found"@,
        DomainError::AccessDenied => "access denied"@,
        DomainError::VersionConflict => "version conflict"@,
    }
}

/// Each error's message says what went wrong in words: the entity and what
/// happened to it.
pub proof fn lemma_error_messages()
    ensures
        error_message(DomainError::CrewLeadLimitReached) == "crew lead limit reached (max 3)"@,
        error_message(DomainError::CrewLeadMinimumBreached) == "crew lead minimum breached (must keep 3)"@,
        error_message(DomainError::CrewLeadAlreadyExists) == "crew lead already exists"@,
        error_message(DomainError::CrewLeadNotFound) == "crew lead not found"@,
        error_message(DomainError::CrewLeadBootstrapInvalid) == "crew lead bootstrap invalid"@,
        error_message(DomainError::UnauthorizedActor) == "unauthorized actor"@,
        error_message(DomainError::PassengerAlreadyExists) == "passenger already exists"@,
        error_message(DomainError::PassengerNotFound) == "passenger not found"@,
        error_message(DomainError::ResourceAlreadyExists) == "resource already exists"@,
        error_message(DomainError::ResourceNotFound) == "resource not found"@,
        error_message(DomainError::AccessDenied) == "access denied"@,
        error_message(DomainError::VersionConflict) == "version conflict"@,
{
}

} // verus!
