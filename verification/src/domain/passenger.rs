//! Passenger entity.
use vstd::prelude::*;
use crate::domain::text::owned;
use crate::domain::tier::Tier;
use crate::domain::timestamp::Timestamp;

verus! {

/// Identifier of a passenger. Distinct from crew-lead and resource ids.
#[derive(Debug, PartialEq, Eq, Hash)]
pub struct PassengerId(pub String);

impl View for PassengerId {
    type V = Seq<char>;

    open spec fn view(&self) -> Seq<char> {
        self.0@
    }
}

impl Clone for PassengerId {
    fn clone(&self) -> (r: Self)
        ensures
            r == *self,
    {
        PassengerId(self.0.clone())
    }
}

impl From<&str> for PassengerId {
    fn from(value: &str) -> (r: Self)
        ensures
            r@ == value@,
    {
        PassengerId(owned(value))
    }
}

impl vstd::std_specs::convert::FromSpecImpl<&str> for PassengerId {
    open spec fn obeys_from_spec() -> bool {
        false
    }

    open spec fn from_spec(v: &str) -> Self {
        vstd::pervasive::arbitrary()
    }
}

/// A passenger record. `deleted_at` is `None` while the record is active;
/// once set it never changes. `version` starts at 0 and grows by one on
/// every mutation (optimistic concurrency).
#[derive(Debug, PartialEq, Eq)]
pub struct Passenger {
    pub id: PassengerId,
    pub name: String,
    pub tier: Tier,
    pub deleted_at: Option<Timestamp>,
    pub version: u64,
}

impl Clone for Passenger {
    fn clone(&self) -> (r: Self)
        ensures
            r == *self,
    {
        Passenger {
            id: self.id.clone(),
            name: self.name.clone(),
            tier: self.tier,
            deleted_at: self.deleted_at,
            version: self.version,
        }
    }
}

} // verus!
