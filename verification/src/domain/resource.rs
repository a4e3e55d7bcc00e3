//! Resource entity.
use vstd::prelude::*;
use crate::domain::text::owned;
use crate::domain::tier::Tier;
use crate::domain::timestamp::Timestamp;

verus! {

/// Identifier of a resource. Ordered lexicographically (reports list ties
/// by ascending id).
#[derive(Debug, PartialEq, Eq, Hash, PartialOrd, Ord)]
pub struct ResourceId(pub String);

impl View for ResourceId {
    type V = Seq<char>;

    open spec fn view(&self) -> Seq<char> {
        self.0@
    }
}

impl Clone for ResourceId {
    fn clone(&self) -> (r: Self)
        ensures
            r == *self,
    {
        ResourceId(self.0.clone())
    }
}

impl From<&str> for ResourceId {
    fn from(value: &str) -> (r: Self)
        ensures
            r@ == value@,
    {
        ResourceId(owned(value))
    }
}

impl vstd::std_specs::convert::FromSpecImpl<&str> for ResourceId {
    open spec fn obeys_from_spec() -> bool {
        false
    }

    open spec fn from_spec(v: &str) -> Self {
        vstd::pervasive::arbitrary()
    }
}

/// A resource of the ship. `min_tier` is the lowest tier allowed to use it;
/// `deleted_at` and `version` behave as on `Passenger`.
#[derive(Debug, PartialEq, Eq)]
pub struct Resource {
    pub id: ResourceId,
    pub name: String,
    pub category: String,
    pub min_tier: Tier,
    pub deleted_at: Option<Timestamp>,
    pub version: u64,
}

impl Clone for Resource {
    fn clone(&self) -> (r: Self)
        ensures
            r == *self,
    {
        Resource {
            id: self.id.clone(),
            name: self.name.clone(),
            category: self.category.clone(),
            min_tier: self.min_tier,
            deleted_at: self.deleted_at,
            version: self.version,
        }
    }
}

} // verus!
