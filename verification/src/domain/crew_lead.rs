//! Crew Lead entity.
use vstd::prelude::*;
use crate::domain::text::owned;

verus! {

/// Identifier of a Crew Lead. Distinct from passenger and resource ids.
#[derive(Debug, PartialEq, Eq, Hash)]
pub struct CrewLeadId(pub String);

impl View for CrewLeadId {
    type V = Seq<char>;

    open spec fn view(&self) -> Seq<char> {
        self.0@
    }
}

impl Clone for CrewLeadId {
    fn clone(&self) -> (r: Self)
        ensures
            r == *self,
    {
        CrewLeadId(self.0.clone())
    }
}

impl From<&str> for CrewLeadId {
    fn from(value: &str) -> (r: Self)
        ensures
            r@ == value@,
    {
        CrewLeadId(owned(value))
    }
}

impl vstd::std_specs::convert::FromSpecImpl<&str> for CrewLeadId {
    open spec fn obeys_from_spec() -> bool {
        false
    }

    open spec fn from_spec(v: &str) -> Self {
        vstd::pervasive::arbitrary()
    }
}

/// A Crew Lead administrator.
#[derive(Debug, PartialEq, Eq)]
pub struct CrewLead {
    pub id: CrewLeadId,
    pub name: String,
}

impl Clone for CrewLead {
    fn clone(&self) -> (r: Self)
        ensures
            r == *self,
    {
        CrewLead { id: self.id.clone(), name: self.name.clone() }
    }
}

} // verus!
