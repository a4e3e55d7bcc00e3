//! Tier: the ordered membership level of a passenger.
use vstd::prelude::*;
use crate::domain::text::{owned, str_equals};

verus! {

/// A passenger's membership tier. A higher rank inherits access to every
/// resource of a lower rank. The set of tiers is closed.
#[derive(Debug, Clone, Copy, PartialEq, Eq, Hash, Structural)]
pub enum Tier {
    Silver,
    Gold,
    Diamond,
    Platinum,
}

/// Raised when an external string does not name a tier (names are
/// case-sensitive). Holds the rejected input.
#[derive(Debug, PartialEq, Eq)]
pub struct InvalidTier(pub String);

/// Numeric rank that orders tiers.
pub open spec fn tier_rank(t: Tier) -> int {
    match t {
        Tier::Silver => 1,
        Tier::Gold => 2,
        Tier::Diamond => 3,
        Tier::Platinum => 4,
    }
}

/// A holder of tier `holder` may use a resource whose minimum tier is `min`.
pub open spec fn grants(holder: Tier, min: Tier) -> bool {
    tier_rank(holder) >= tier_rank(min)
}

/// The canonical name of a tier (also its `Debug` rendering).
pub open spec fn tier_name(t: Tier) -> Seq<char> {
    match t {
        Tier::Silver => "Silver"@,
        Tier::Gold => "Gold"@,
        Tier::Diamond => "Diamond"@,
        Tier::Platinum => "Platinum"@,
    }
}

/// The tier whose canonical name is exactly `s`, if any.
pub open spec fn tier_named(s: Seq<char>) -> Option<Tier> {
    if s == "Silver"@ {
        Some(Tier::Silver)
    } else if s == "Gold"@ {
        Some(Tier::Gold)
    } else if s == "Diamond"@ {
        Some(Tier::Diamond)
    } else if s == "Platinum"@ {
        Some(Tier::Platinum)
    } else {
        None
    }
}

impl Tier {
    /// Numeric rank used for ordering: Silver 1, Gold 2, Diamond 3, Platinum 4.
    pub fn rank(self) -> (r: u8)
        ensures
            r == tier_rank(self),
    {
        match self {
            Tier::Silver => 1,
            Tier::Gold => 2,
            Tier::Diamond => 3,
            Tier::Platinum => 4,
        }
    }

    /// `self` (a passenger's tier) may use a resource whose minimum tier is
    /// `resource_min_tier`.
    pub fn can_access(self, resource_min_tier: Tier) -> (b: bool)
        ensures
            b == grants(self, resource_min_tier),
    {
        self.rank() >= resource_min_tier.rank()
    }
}

/// The tiers from lowest to highest.
pub open spec fn tier_ladder() -> Seq<Tier> {
    seq![Tier::Silver, Tier::Gold, Tier::Diamond, Tier::Platinum]
}

/// Tiers climb Silver < Gold < Diamond < Platinum: a tier reaches exactly
/// the tiers at or below it on that ladder.
pub proof fn lemma_tier_ladder(i: int, j: int)
    requires
        0 <= i < 4,
        0 <= j < 4,
    ensures
        grants(tier_ladder()[i], tier_ladder()[j]) == (i >= j),
{
}

/// Every tier reads its own name back.
pub proof fn lemma_tier_name_round_trip(t: Tier)
    ensures
        tier_named(tier_name(t)) == Some(t),
{
    reveal_strlit("Silver");
    reveal_strlit("Gold");
    reveal_strlit("Diamond");
    reveal_strlit("Platinum");
    assert("Silver"@.len() == 6 && "Gold"@.len() == 4);
    assert("Diamond"@.len() == 7 && "Platinum"@.len() == 8);
}

/// Access orders the tiers in a chain: it is reflexive, transitive and total,
/// and two tiers that reach each other are the same tier.
pub proof fn lemma_access_is_a_total_order(a: Tier, b: Tier, c: Tier)
    ensures
        grants(a, a),
        grants(a, b) && grants(b, c) ==> grants(a, c),
        grants(a, b) || grants(b, a),
        (grants(a, b) && grants(b, a)) ==> a == b,
{
}

impl TryFrom<&str> for Tier {
    type Error = InvalidTier;

    /// Case-sensitive parse of a canonical tier name.
    fn try_from(value: &str) -> (r: Result<Tier, InvalidTier>)
        ensures
            match tier_named(value@) {
                Some(t) => r == Ok::<Tier, InvalidTier>(t),
                None => r matches Err(e) && e.0@ == value@,
            },
    {
        if str_equals(value, "Silver") {
            Ok(Tier::Silver)
        } else if str_equals(value, "Gold") {
            Ok(Tier::Gold)
        } else if str_equals(value, "Diamond") {
            Ok(Tier::Diamond)
        } else if str_equals(value, "Platinum") {
            Ok(Tier::Platinum)
        } else {
            Err(InvalidTier(owned(value)))
        }
    }
}

impl vstd::std_specs::convert::TryFromSpecImpl<&str> for Tier {
    open spec fn obeys_try_from_spec() -> bool {
        false
    }

    open spec fn try_from_spec(v: &str) -> Result<Self, InvalidTier> {
        vstd::pervasive::arbitrary()
    }
}

} // verus!
