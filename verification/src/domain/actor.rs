//! Actor: the subject invoking a service method. Identity is supplied by the
//! caller; authorisation is decided on the variant.
use vstd::prelude::*;
use crate::domain::crew_lead::CrewLeadId;
use crate::domain::passenger::PassengerId;

verus! {

/// Either an administrator (Crew Lead) or a regular passenger.
#[derive(Debug, PartialEq, Eq)]
pub enum Actor {
    CrewLead(CrewLeadId),
    Passenger(PassengerId),
}

impl Clone for Actor {
    fn clone(&self) -> (r: Self)
        ensures
            r == *self,
    {
        match self {
            Actor::CrewLead(id) => Actor::CrewLead(id.clone()),
            Actor::Passenger(id) => Actor::Passenger(id.clone()),
        }
    }
}

} // verus!
