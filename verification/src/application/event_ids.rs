//! Identifiers for emitted events.
use vstd::prelude::*;
use crate::domain::admin_event::is_uuid_v4_text;

verus! {

/// `uuid::Uuid::new_v4().to_string()`: a random version-4 UUID in its
/// hyphenated lower-case form. Only its shape is stated; the value is random.
#[verifier::external_body]
pub(crate) fn new_event_id() -> (id: String)
    ensures
        is_uuid_v4_text(id@),
{
    uuid::Uuid::new_v4().to_string()
}

} // verus!
