//! Wire shapes of the HTTP boundary, their validation, and their conversions
//! from and to domain values. The serialisable copies of these types live in
//! the server binary; these are the values the library reasons about.
use vstd::prelude::*;
use crate::domain::admin_event::AdminEvent;
use crate::domain::crew_lead::{CrewLead, CrewLeadId};
use crate::domain::passenger::Passenger;
use crate::domain::resource::Resource;
use crate::domain::text::owned;
use crate::domain::tier::Tier;
use crate::domain::usage_event::{Outcome, UsageEvent};
use crate::infrastructure::labels::{action_name, action_to_str, kind_name, kind_to_str};

verus! {

// ---------- text validation ---------------------------------------------

/// Longest text field accepted at the boundary, in characters.
pub const MAX_FIELD_CHARS: usize = 255;

/// Outcome of checking one text field: empty fields fail with `empty`,
/// fields over `MAX_FIELD_CHARS` characters with `long`.
pub open spec fn field_check(
    s: Seq<char>,
    empty: &'static str,
    long: &'static str,
) -> Result<(), &'static str> {
    if s.len() == 0 {
        Err(empty)
    } else if s.len() > MAX_FIELD_CHARS {
        Err(long)
    } else {
        Ok(())
    }
}

/// The first failure of two checks made in order.
pub open spec fn first_failure(
    a: Result<(), &'static str>,
    b: Result<(), &'static str>,
) -> Result<(), &'static str> {
    if a is Err {
        a
    } else {
        b
    }
}

fn check_field(s: &str, empty: &'static str, long: &'static str) -> (r: Result<(), &'static str>)
    ensures
        r == field_check(s@, empty, long),
{
    if s.is_empty() {
        Err(empty)
    } else if s.unicode_len() > MAX_FIELD_CHARS {
        Err(long)
    } else {
        Ok(())
    }
}

// ---------- tier --------------------------------------------------------

#[derive(Debug, Clone, Copy, PartialEq, Eq)]
pub enum TierDto {
    Silver,
    Gold,
    Diamond,
    Platinum,
}

/// The wire form of a tier.
pub open spec fn tier_dto(t: Tier) -> TierDto {
    match t {
        Tier::Silver => TierDto::Silver,
        Tier::Gold => TierDto::Gold,
        Tier::Diamond => TierDto::Diamond,
        Tier::Platinum => TierDto::Platinum,
    }
}

/// The tier a wire form names.
pub open spec fn tier_of(d: TierDto) -> Tier {
    match d {
        TierDto::Silver => Tier::Silver,
        TierDto::Gold => Tier::Gold,
        TierDto::Diamond => Tier::Diamond,
        TierDto::Platinum => Tier::Platinum,
    }
}

/// A tier survives the trip to the wire and back, and so does a wire form.
pub proof fn lemma_tier_dto_round_trip(t: Tier, d: TierDto)
    ensures
        tier_of(tier_dto(t)) == t,
        tier_dto(tier_of(d)) == d,
{
}

/// The wire form names the tier it carries: each tier goes out as the wire
/// variant of the same name, so distinct tiers never share a wire form.
pub proof fn lemma_tier_dto_names_the_tier(t: Tier)
    ensures
        (tier_dto(t) == TierDto::Silver) == (t == Tier::Silver),
        (tier_dto(t) == TierDto::Gold) == (t == Tier::Gold),
        (tier_dto(t) == TierDto::Diamond) == (t == Tier::Diamond),
        (tier_dto(t) == TierDto::Platinum) == (t == Tier::Platinum),
{
}

impl From<Tier> for TierDto {
    fn from(t: Tier) -> (d: Self)
        ensures
            d == tier_dto(t),
    {
        match t {
            Tier::Silver => TierDto::Silver,
            Tier::Gold => TierDto::Gold,
            Tier::Diamond => TierDto::Diamond,
            Tier::Platinum => TierDto::Platinum,
        }
    }
}

impl vstd::std_specs::convert::FromSpecImpl<Tier> for TierDto {
    open spec fn obeys_from_spec() -> bool {
        true
    }

    open spec fn from_spec(t: Tier) -> Self {
        tier_dto(t)
    }
}

impl From<TierDto> for Tier {
    fn from(d: TierDto) -> (t: Self)
        ensures
            t == tier_of(d),
    {
        match d {
            TierDto::Silver => Tier::Silver,
            TierDto::Gold => Tier::Gold,
            TierDto::Diamond => Tier::Diamond,
            TierDto::Platinum => Tier::Platinum,
        }
    }
}

impl vstd::std_specs::convert::FromSpecImpl<TierDto> for Tier {
    open spec fn obeys_from_spec() -> bool {
        true
    }

    open spec fn from_spec(d: TierDto) -> Self {
        tier_of(d)
    }
}

// ---------- crew lead ---------------------------------------------------

#[derive(Debug)]
pub struct CrewLeadDto {
    pub id: String,
    pub name: String,
}

impl CrewLeadDto {
    /// Both fields must be non-empty and at most `MAX_FIELD_CHARS` characters;
    /// the first failing field is reported.
    pub fn validate(&self) -> (r: Result<(), &'static str>)
        ensures
            r == first_failure(
                field_check(self.id@, "id must not be empty", "id must be 255 characters or fewer"),
                field_check(
                    self.name@,
                    "name must not be empty",
                    "name must be 255 characters or fewer",
                ),
            ),
    {
        let id_check = check_field(
            self.id.as_str(),
            "id must not be empty",
            "id must be 255 characters or fewer",
        );
        if id_check.is_err() {
            return id_check;
        }
        check_field(
            self.name.as_str(),
            "name must not be empty",
            "name must be 255 characters or fewer",
        )
    }
}

impl From<&CrewLead> for CrewLeadDto {
    fn from(c: &CrewLead) -> (d: Self)
        ensures
            d.id@ == c.id@,
            d.name@ == c.name@,
    {
        CrewLeadDto { id: c.id.0.clone(), name: c.name.clone() }
    }
}

impl vstd::std_specs::convert::FromSpecImpl<&CrewLead> for CrewLeadDto {
    open spec fn obeys_from_spec() -> bool {
        false
    }

    open spec fn from_spec(c: &CrewLead) -> Self {
        vstd::pervasive::arbitrary()
    }
}

impl From<CrewLeadDto> for CrewLead {
    fn from(d: CrewLeadDto) -> (c: Self)
        ensures
            c.id@ == d.id@,
            c.name@ == d.name@,
    {
        CrewLead { id: CrewLeadId(d.id), name: d.name }
    }
}

impl vstd::std_specs::convert::FromSpecImpl<CrewLeadDto> for CrewLead {
    open spec fn obeys_from_spec() -> bool {
        false
    }

    open spec fn from_spec(d: CrewLeadDto) -> Self {
        vstd::pervasive::arbitrary()
    }
}

#[derive(Debug)]
pub struct ReplaceCrewLeadReq {
    pub new_lead: CrewLeadDto,
}

#[derive(Debug)]
pub struct AddCrewLeadReq {
    pub lead: CrewLeadDto,
}

// ---------- passenger ---------------------------------------------------

#[derive(Debug)]
pub struct PassengerDto {
    pub id: String,
    pub name: String,
    pub tier: TierDto,
    pub deleted_at: Option<i64>,
    pub version: u64,
}

impl From<&Passenger> for PassengerDto {
    fn from(p: &Passenger) -> (d: Self)
        ensures
            d.id@ == p.id@,
            d.name@ == p.name@,
            d.tier == tier_dto(p.tier),
            d.deleted_at == (match p.deleted_at {
                Some(t) => Some(t.0),
                None => None,
            }),
            d.version == p.version,
    {
        PassengerDto {
            id: p.id.0.clone(),
            name: p.name.clone(),
            tier: TierDto::from(p.tier),
            deleted_at: match p.deleted_at {
                Some(t) => Some(t.0),
                None => None,
            },
            version: p.version,
        }
    }
}

impl vstd::std_specs::convert::FromSpecImpl<&Passenger> for PassengerDto {
    open spec fn obeys_from_spec() -> bool {
        false
    }

    open spec fn from_spec(p: &Passenger) -> Self {
        vstd::pervasive::arbitrary()
    }
}

#[derive(Debug)]
pub struct CreatePassengerReq {
    pub id: String,
    pub name: String,
    pub tier: TierDto,
}

impl CreatePassengerReq {
    /// Both text fields must be non-empty and at most `MAX_FIELD_CHARS`
    /// characters; the first failing field is reported.
    pub fn validate(&self) -> (r: Result<(), &'static str>)
        ensures
            r == first_failure(
                field_check(self.id@, "id must not be empty", "id must be 255 characters or fewer"),
                field_check(
                    self.name@,
                    "name must not be empty",
                    "name must be 255 characters or fewer",
                ),
            ),
    {
        let id_check = check_field(
            self.id.as_str(),
            "id must not be empty",
            "id must be 255 characters or fewer",
        );
        if id_check.is_err() {
            return id_check;
        }
        check_field(
            self.name.as_str(),
            "name must not be empty",
            "name must be 255 characters or fewer",
        )
    }
}

#[derive(Debug)]
pub struct ChangeTierReq {
    pub tier: TierDto,
}

// ---------- resource ----------------------------------------------------

#[derive(Debug)]
pub struct ResourceDto {
    pub id: String,
    pub name: String,
    pub category: String,
    pub min_tier: TierDto,
    pub deleted_at: Option<i64>,
    pub version: u64,
}

impl From<&Resource> for ResourceDto {
    fn from(r: &Resource) -> (d: Self)
        ensures
            d.id@ == r.id@,
            d.name@ == r.name@,
            d.category@ == r.category@,
            d.min_tier == tier_dto(r.min_tier),
            d.deleted_at == (match r.deleted_at {
                Some(t) => Some(t.0),
                None => None,
            }),
            d.version == r.version,
    {
        ResourceDto {
            id: r.id.0.clone(),
            name: r.name.clone(),
            category: r.category.clone(),
            min_tier: TierDto::from(r.min_tier),
            deleted_at: match r.deleted_at {
                Some(t) => Some(t.0),
                None => None,
            },
            version: r.version,
        }
    }
}

impl vstd::std_specs::convert::FromSpecImpl<&Resource> for ResourceDto {
    open spec fn obeys_from_spec() -> bool {
        false
    }

    open spec fn from_spec(r: &Resource) -> Self {
        vstd::pervasive::arbitrary()
    }
}

#[derive(Debug)]
pub struct CreateResourceReq {
    pub id: String,
    pub name: String,
    pub category: String,
    pub min_tier: TierDto,
}

impl CreateResourceReq {
    /// All three text fields must be non-empty and at most
    /// `MAX_FIELD_CHARS` characters; the first failing field is reported.
    pub fn validate(&self) -> (r: Result<(), &'static str>)
        ensures
            r == first_failure(
                field_check(self.id@, "id must not be empty", "id must be 255 characters or fewer"),
                first_failure(
                    field_check(
                        self.name@,
                        "name must not be empty",
                        "name must be 255 characters or fewer",
                    ),
                    field_check(
                        self.category@,
                        "category must not be empty",
                        "category must be 255 characters or fewer",
                    ),
                ),
            ),
    {
        let id_check = check_field(
            self.id.as_str(),
            "id must not be empty",
            "id must be 255 characters or fewer",
        );
        if id_check.is_err() {
            return id_check;
        }
        let name_check = check_field(
            self.name.as_str(),
            "name must not be empty",
            "name must be 255 characters or fewer",
        );
        if name_check.is_err() {
            return name_check;
        }
        check_field(
            self.category.as_str(),
            "category must not be empty",
            "category must be 255 characters or fewer",
        )
    }
}

// ---------- access ------------------------------------------------------

#[derive(Debug)]
pub struct UseResourceReq {
    pub resource_id: String,
}

impl UseResourceReq {
    /// `resource_id` must be non-empty and at most `MAX_FIELD_CHARS` characters.
    pub fn validate(&self) -> (r: Result<(), &'static str>)
        ensures
            r == field_check(
                self.resource_id@,
                "resource_id must not be empty",
                "resource_id must be 255 characters or fewer",
            ),
    {
        check_field(
            self.resource_id.as_str(),
            "resource_id must not be empty",
            "resource_id must be 255 characters or fewer",
        )
    }
}

#[derive(Debug, Clone, Copy, PartialEq, Eq)]
pub enum OutcomeDto {
    Allowed,
    Denied,
}

/// The wire form of an outcome.
pub open spec fn outcome_dto(o: Outcome) -> OutcomeDto {
    match o {
        Outcome::Allowed => OutcomeDto::Allowed,
        Outcome::Denied => OutcomeDto::Denied,
    }
}

/// The wire form names the outcome it carries: an attempt is shown as
/// allowed exactly when it was allowed, and as denied exactly when it was
/// denied, so distinct outcomes never share a wire form.
pub proof fn lemma_outcome_dto_names_the_outcome(o: Outcome, p: Outcome)
    ensures
        (outcome_dto(o) == OutcomeDto::Allowed) == (o == Outcome::Allowed),
        (outcome_dto(o) == OutcomeDto::Denied) == (o == Outcome::Denied),
        outcome_dto(o) == outcome_dto(p) ==> o == p,
{
}

impl From<Outcome> for OutcomeDto {
    fn from(o: Outcome) -> (d: Self)
        ensures
            d == outcome_dto(o),
    {
        match o {
            Outcome::Allowed => OutcomeDto::Allowed,
            Outcome::Denied => OutcomeDto::Denied,
        }
    }
}

impl vstd::std_specs::convert::FromSpecImpl<Outcome> for OutcomeDto {
    open spec fn obeys_from_spec() -> bool {
        true
    }

    open spec fn from_spec(o: Outcome) -> Self {
        outcome_dto(o)
    }
}

#[derive(Debug)]
pub struct UsageEventDto {
    pub id: String,
    pub passenger_id: String,
    pub resource_id: String,
    pub tier_at_attempt: TierDto,
    pub min_tier_at_attempt: TierDto,
    pub timestamp: i64,
    pub outcome: OutcomeDto,
}

impl From<&UsageEvent> for UsageEventDto {
    fn from(e: &UsageEvent) -> (d: Self)
        ensures
            d.id@ == e.id@,
            d.passenger_id@ == e.passenger_id@,
            d.resource_id@ == e.resource_id@,
            d.tier_at_attempt == tier_dto(e.tier_at_attempt),
            d.min_tier_at_attempt == tier_dto(e.min_tier_at_attempt),
            d.timestamp == e.timestamp.0,
            d.outcome == outcome_dto(e.outcome),
    {
        UsageEventDto {
            id: e.id.clone(),
            passenger_id: e.passenger_id.0.clone(),
            resource_id: e.resource_id.0.clone(),
            tier_at_attempt: TierDto::from(e.tier_at_attempt),
            min_tier_at_attempt: TierDto::from(e.min_tier_at_attempt),
            timestamp: e.timestamp.0,
            outcome: OutcomeDto::from(e.outcome),
        }
    }
}

impl vstd::std_specs::convert::FromSpecImpl<&UsageEvent> for UsageEventDto {
    open spec fn obeys_from_spec() -> bool {
        false
    }

    open spec fn from_spec(e: &UsageEvent) -> Self {
        vstd::pervasive::arbitrary()
    }
}

// ---------- admin event -------------------------------------------------

/// An audit entry on the wire. `event_hash` is the entry's link in the
/// hash chain; it is empty until the caller fills it in.
#[derive(Debug)]
pub struct AdminEventDto {
    pub id: String,
    pub actor_id: String,
    pub action: String,
    pub target_kind: String,
    pub target_id: String,
    pub timestamp: i64,
    pub details: Option<String>,
    pub event_hash: String,
}

impl From<&AdminEvent> for AdminEventDto {
    fn from(e: &AdminEvent) -> (d: Self)
        ensures
            d.id@ == e.id@,
            d.actor_id@ == e.actor_id@,
            d.action@ == action_name(e.action),
            d.target_kind@ == kind_name(e.target_kind),
            d.target_id@ == e.target_id@,
            d.timestamp == e.timestamp.0,
            d.details == e.details,
            d.event_hash@.len() == 0,
    {
        AdminEventDto {
            id: e.id.clone(),
            actor_id: e.actor_id.0.clone(),
            action: owned(action_to_str(e.action)),
            target_kind: owned(kind_to_str(e.target_kind)),
            target_id: e.target_id.clone(),
            timestamp: e.timestamp.0,
            details: match &e.details {
                Some(text) => Some(text.clone()),
                None => None,
            },
            event_hash: String::new(),
        }
    }
}

impl vstd::std_specs::convert::FromSpecImpl<&AdminEvent> for AdminEventDto {
    open spec fn obeys_from_spec() -> bool {
        false
    }

    open spec fn from_spec(e: &AdminEvent) -> Self {
        vstd::pervasive::arbitrary()
    }
}

/// Result of re-checking the audit hash chain.
#[derive(Debug)]
pub struct AuditVerifyDto {
    pub valid: bool,
    pub length: usize,
    pub broken_at: Option<usize>,
}

// ---------- reports -----------------------------------------------------

#[derive(Debug)]
pub struct TierCountsDto {
    pub tier: TierDto,
    pub allowed: u64,
    pub denied: u64,
}

#[derive(Debug)]
pub struct TopResourceDto {
    pub resource_id: String,
    pub allowed_count: u64,
}

/// `?n=` of the top-resources report.
#[derive(Debug)]
pub struct TopNQuery {
    pub n: Option<usize>,
}

/// Largest `n` served by the top-resources report.
pub const MAX_TOP_N: usize = 1000;

/// Largest `offset` honoured by a listing.
pub const MAX_OFFSET: usize = 1_000_000;

/// Largest page served by a listing.
pub const MAX_LIMIT: usize = 1000;

/// `value`, or `default` when absent, capped at `cap`.
pub open spec fn capped_or(value: Option<usize>, default: usize, cap: usize) -> usize {
    let v = match value {
        Some(v) => v,
        None => default,
    };
    if v < cap {
        v
    } else {
        cap
    }
}

impl TopNQuery {
    /// The requested `n`: 5 when absent, never more than `MAX_TOP_N`.
    pub fn n(&self) -> (r: usize)
        ensures
            r == capped_or(self.n, 5, MAX_TOP_N),
    {
        let v = match self.n {
            Some(v) => v,
            None => 5,
        };
        if v < MAX_TOP_N {
            v
        } else {
            MAX_TOP_N
        }
    }
}

/// Offset-based paging of listings.
#[derive(Debug)]
pub struct PaginationQuery {
    pub offset: Option<usize>,
    pub limit: Option<usize>,
}

impl PaginationQuery {
    /// Entries to skip: 0 when absent, never more than `MAX_OFFSET`.
    pub fn offset(&self) -> (r: usize)
        ensures
            r == capped_or(self.offset, 0, MAX_OFFSET),
    {
        let v = match self.offset {
            Some(v) => v,
            None => 0,
        };
        if v < MAX_OFFSET {
            v
        } else {
            MAX_OFFSET
        }
    }

    /// Page size: 100 when absent, never more than `MAX_LIMIT`.
    pub fn limit(&self) -> (r: usize)
        ensures
            r == capped_or(self.limit, 100, MAX_LIMIT),
    {
        let v = match self.limit {
            Some(v) => v,
            None => 100,
        };
        if v < MAX_LIMIT {
            v
        } else {
            MAX_LIMIT
        }
    }
}

/// `?include_deleted=` of the passenger and resource listings.
#[derive(Debug)]
pub struct SoftDeleteQuery {
    pub include_deleted: Option<bool>,
}

impl SoftDeleteQuery {
    /// Whether soft-deleted records are listed too; off when absent.
    pub fn include_deleted(&self) -> (r: bool)
        ensures
            r == (self.include_deleted == Some(true)),
    {
        match self.include_deleted {
            Some(b) => b,
            None => false,
        }
    }
}

#[derive(Debug)]
pub struct AccessibleQuery {
    pub tier: TierDto,
}

// ---------- errors, health, auth ----------------------------------------

/// Machine-readable error code of an error response.
#[derive(Debug, Clone, Copy, PartialEq, Eq)]
pub enum ErrorCode {
    UnauthorizedActor,
    AccessDenied,
    CrewLeadNotFound,
    PassengerNotFound,
    ResourceNotFound,
    CrewLeadAlreadyExists,
    PassengerAlreadyExists,
    ResourceAlreadyExists,
    CrewLeadLimitReached,
    CrewLeadMinimumBreached,
    CrewLeadBootstrapInvalid,
    VersionConflict,
    InvalidInput,
    Unauthorized,
    DatabaseUnreachable,
    InternalError,
}

/// Body of every error response.
#[derive(Debug)]
pub struct ErrorBody {
    pub error: String,
    pub code: ErrorCode,
}

/// Body of `GET /health/ready`.
#[derive(Debug)]
pub struct HealthReadyDto {
    pub status: String,
    pub version: String,
    pub crew_leads: usize,
    pub passengers_active: usize,
    pub resources_active: usize,
    pub usage_events: usize,
    pub admin_events: usize,
}

/// Body of `GET /auth/check`: whom the bearer token stands for.
#[derive(Debug)]
pub struct AuthCheckDto {
    pub actor_id: String,
}

} // verus!
