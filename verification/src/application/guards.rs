//! Authorisation guards shared by the services.
use vstd::prelude::*;
use crate::domain::actor::Actor;
use crate::domain::crew_lead::CrewLeadId;
use crate::domain::errors::DomainError;

verus! {

/// The Crew Lead's id when `actor` is a Crew Lead, otherwise
/// `UnauthorizedActor`.
pub fn require_crew_lead(actor: &Actor) -> (r: Result<&CrewLeadId, DomainError>)
    ensures
        match *actor {
            Actor::CrewLead(id) => r == Ok::<&CrewLeadId, DomainError>(&id),
            Actor::Passenger(_) => r == Err::<&CrewLeadId, DomainError>(DomainError::UnauthorizedActor),
        },
{
    match actor {
        Actor::CrewLead(id) => Ok(id),
        Actor::Passenger(_) => Err(DomainError::UnauthorizedActor),
    }
}

} // verus!
