//! What the HTTP server decides per request, on plain values: error status
//! mapping, conditional requests, paging, bearer authentication, report rows
//! and the idempotent-replay cache. The server binary does the I/O.
use vstd::prelude::*;
use subtle::ConstantTimeEq;
use crate::application::reporting_service::{TierCounts, TierReport, report_counts};
use crate::domain::crew_lead::CrewLead;
use crate::domain::errors::{DomainError, error_message};
use crate::domain::lookup::{last_index, lemma_last_index_is};
use crate::domain::text::{owned, str_equals, trim, trimmed};
use crate::domain::tier::Tier;
use crate::domain::usage_event::{Outcome, UsageEvent};
use crate::interface::dto::{ErrorBody, ErrorCode, TierCountsDto, TierDto, tier_dto};

verus! {

// ---------- error responses ---------------------------------------------

/// HTTP status and code of each domain error: authorisation 403, missing
/// entities 404, conflicts 409, bad bootstrap input 400, version mismatch
/// 412.
pub open spec fn error_status(e: DomainError) -> (u16, ErrorCode) {
    match e {
        DomainError::UnauthorizedActor => (403, ErrorCode::UnauthorizedActor),
        DomainError::AccessDenied => (403, ErrorCode::AccessDenied),
        DomainError::CrewLeadNotFound => (404, ErrorCode::CrewLeadNotFound),
        DomainError::PassengerNotFound => (404, ErrorCode::PassengerNotFound),
        DomainError::ResourceNotFound => (404, ErrorCode::ResourceNotFound),
        DomainError::CrewLeadAlreadyExists => (409, ErrorCode::CrewLeadAlreadyExists),
        DomainError::PassengerAlreadyExists => (409, ErrorCode::PassengerAlreadyExists),
        DomainError::ResourceAlreadyExists => (409, ErrorCode::ResourceAlreadyExists),
        DomainError::CrewLeadLimitReached => (409, ErrorCode::CrewLeadLimitReached),
        DomainError::CrewLeadMinimumBreached => (409, ErrorCode::CrewLeadMinimumBreached),
        DomainError::CrewLeadBootstrapInvalid => (400, ErrorCode::CrewLeadBootstrapInvalid),
        DomainError::VersionConflict => (412, ErrorCode::VersionConflict),
    }
}

/// The domain error that an error code is named after, if any.
pub open spec fn code_names(c: ErrorCode) -> Option<DomainError> {
    match c {
        ErrorCode::UnauthorizedActor => Some(DomainError::UnauthorizedActor),
        ErrorCode::AccessDenied => Some(DomainError::AccessDenied),
        ErrorCode::CrewLeadNotFound => Some(DomainError::CrewLeadNotFound),
        ErrorCode::PassengerNotFound => Some(DomainError::PassengerNotFound),
        ErrorCode::ResourceNotFound => Some(DomainError::ResourceNotFound),
        ErrorCode::CrewLeadAlreadyExists => Some(DomainError::CrewLeadAlreadyExists),
        ErrorCode::PassengerAlreadyExists => Some(DomainError::PassengerAlreadyExists),
        ErrorCode::ResourceAlreadyExists => Some(DomainError::ResourceAlreadyExists),
        ErrorCode::CrewLeadLimitReached => Some(DomainError::CrewLeadLimitReached),
        ErrorCode::CrewLeadMinimumBreached => Some(DomainError::CrewLeadMinimumBreached),
        ErrorCode::CrewLeadBootstrapInvalid => Some(DomainError::CrewLeadBootstrapInvalid),
        ErrorCode::VersionConflict => Some(DomainError::VersionConflict),
        _ => None,
    }
}

/// `s` ends with `x`.
pub open spec fn ends_with(s: Seq<char>, x: Seq<char>) -> bool {
    s.len() >= x.len() && s.subrange(s.len() - x.len(), s.len() as int) == x
}

/// `s` begins with `x`.
pub open spec fn starts_with(s: Seq<char>, x: Seq<char>) -> bool {
    s.len() >= x.len() && s.subrange(0, x.len() as int) == x
}

proof fn lemma_differs_at_end(s: Seq<char>, x: Seq<char>, k: int)
    requires
        1 <= k <= x.len(),
        k <= s.len(),
        s[s.len() - k] != x[x.len() - k],
    ensures
        !ends_with(s, x),
{
    if ends_with(s, x) {
        assert(s.subrange(s.len() - x.len(), s.len() as int)[x.len() - k] == x[x.len() - k]);
    }
}

proof fn lemma_differs_at_start(s: Seq<char>, x: Seq<char>, k: int)
    requires
        0 <= k < x.len(),
        k < s.len(),
        s[k] != x[k],
    ensures
        !starts_with(s, x),
{
    if starts_with(s, x) {
        assert(s.subrange(0, x.len() as int)[k] == x[k]);
    }
}

/// Every domain error is answered with the code named after it, and with
/// the status its kind calls for, read off its message: a missing entity
/// ("... not found") gets 404; an existing id ("... already exists") or the
/// roster's size limits ("crew lead limit ...", "crew lead minimum ...")
/// get 409; an invalid bootstrap ("... invalid") 400; a version conflict
/// 412; an unauthorised actor or a denied access 403.
pub proof fn lemma_error_status_follows_the_error(e: DomainError)
    ensures
        code_names(error_status(e).1) == Some(e),
        (error_status(e).0 == 404) == ends_with(error_message(e), " not found"@),
        (error_status(e).0 == 409) == (ends_with(error_message(e), " already exists"@)
            || starts_with(error_message(e), "crew lead limit"@) || starts_with(
            error_message(e),
            "crew lead minimum"@,
        )),
        (error_status(e).0 == 400) == ends_with(error_message(e), " invalid"@),
        (error_status(e).0 == 412) == (error_message(e) == "version conflict"@),
        (error_status(e).0 == 403) == (error_message(e) == "unauthorized actor"@ || error_message(e)
            == "access denied"@),
{
    reveal_strlit(" not found");
    reveal_strlit(" already exists");
    reveal_strlit(" invalid");
    reveal_strlit("crew lead limit");
    reveal_strlit("crew lead minimum");
    reveal_strlit("version conflict");
    reveal_strlit("unauthorized actor");
    reveal_strlit("access denied");
    reveal_strlit("crew lead limit reached (max 3)");
    reveal_strlit("crew lead minimum breached (must keep 3)");
    reveal_strlit("crew lead already exists");
    reveal_strlit("crew lead not found");
    reveal_strlit("crew lead bootstrap invalid");
    reveal_strlit("passenger already exists");
    reveal_strlit("passenger not found");
    reveal_strlit("resource already exists");
    reveal_strlit("resource not found");
    let m = error_message(e);
    let nf = " not found"@;
    let ae = " already exists"@;
    let inv = " invalid"@;
    let lim = "crew lead limit"@;
    let min = "crew lead minimum"@;
    let ua = "unauthorized actor"@;
    let ad = "access denied"@;
    let vc = "version conflict"@;
    assert(m != ua || e == DomainError::UnauthorizedActor) by {
        if e != DomainError::UnauthorizedActor && m.len() == ua.len() {
            assert(m[0] != ua[0]);
        }
    }
    assert(m != ad || e == DomainError::AccessDenied) by {
        if e != DomainError::AccessDenied && m.len() == ad.len() {
            assert(m[0] != ad[0]);
        }
    }
    assert(m != vc || e == DomainError::VersionConflict) by {
        if e != DomainError::VersionConflict && m.len() == vc.len() {
            assert(m[0] != vc[0]);
        }
    }
    match e {
        DomainError::CrewLeadLimitReached => {
            assert(m.subrange(0, lim.len() as int) =~= lim);
            lemma_differs_at_end(m, nf, 1);
            lemma_differs_at_end(m, ae, 1);
            lemma_differs_at_end(m, inv, 1);
        },
        DomainError::CrewLeadMinimumBreached => {
            assert(m.subrange(0, min.len() as int) =~= min);
            lemma_differs_at_start(m, lim, 10);
            lemma_differs_at_end(m, nf, 1);
            lemma_differs_at_end(m, ae, 1);
            lemma_differs_at_end(m, inv, 1);
        },
        DomainError::CrewLeadAlreadyExists => {
            assert(m.subrange(m.len() - ae.len(), m.len() as int) =~= ae);
            lemma_differs_at_start(m, lim, 10);
            lemma_differs_at_start(m, min, 10);
            lemma_differs_at_end(m, nf, 1);
            lemma_differs_at_end(m, inv, 1);
        },
        DomainError::CrewLeadNotFound => {
            assert(m.subrange(m.len() - nf.len(), m.len() as int) =~= nf);
            lemma_differs_at_start(m, lim, 10);
            lemma_differs_at_start(m, min, 10);
            lemma_differs_at_end(m, ae, 1);
            lemma_differs_at_end(m, inv, 2);
        },
        DomainError::CrewLeadBootstrapInvalid => {
            assert(m.subrange(m.len() - inv.len(), m.len() as int) =~= inv);
            lemma_differs_at_start(m, lim, 10);
            lemma_differs_at_start(m, min, 10);
            lemma_differs_at_end(m, ae, 1);
            lemma_differs_at_end(m, nf, 2);
        },
        DomainError::UnauthorizedActor => {
            lemma_differs_at_start(m, lim, 0);
            lemma_differs_at_start(m, min, 0);
            lemma_differs_at_end(m, nf, 1);
            lemma_differs_at_end(m, ae, 1);
            lemma_differs_at_end(m, inv, 1);
        },
        DomainError::PassengerAlreadyExists => {
            assert(m.subrange(m.len() - ae.len(), m.len() as int) =~= ae);
            lemma_differs_at_start(m, lim, 0);
            lemma_differs_at_start(m, min, 0);
            lemma_differs_at_end(m, nf, 1);
            lemma_differs_at_end(m, inv, 1);
        },
        DomainError::PassengerNotFound => {
            assert(m.subrange(m.len() - nf.len(), m.len() as int) =~= nf);
            lemma_differs_at_start(m, lim, 0);
            lemma_differs_at_start(m, min, 0);
            lemma_differs_at_end(m, ae, 1);
            lemma_differs_at_end(m, inv, 2);
        },
        DomainError::ResourceAlreadyExists => {
            assert(m.subrange(m.len() - ae.len(), m.len() as int) =~= ae);
            lemma_differs_at_start(m, lim, 0);
            lemma_differs_at_start(m, min, 0);
            lemma_differs_at_end(m, nf, 1);
            lemma_differs_at_end(m, inv, 1);
        },
        DomainError::ResourceNotFound => {
            assert(m.subrange(m.len() - nf.len(), m.len() as int) =~= nf);
            lemma_differs_at_start(m, lim, 0);
            lemma_differs_at_start(m, min, 0);
            lemma_differs_at_end(m, ae, 1);
            lemma_differs_at_end(m, inv, 2);
        },
        DomainError::AccessDenied => {
            lemma_differs_at_start(m, lim, 0);
            lemma_differs_at_start(m, min, 0);
            lemma_differs_at_end(m, nf, 2);
            lemma_differs_at_end(m, ae, 1);
            lemma_differs_at_end(m, inv, 2);
        },
        DomainError::VersionConflict => {
            lemma_differs_at_start(m, lim, 0);
            lemma_differs_at_start(m, min, 0);
            lemma_differs_at_end(m, nf, 1);
            lemma_differs_at_end(m, ae, 1);
            lemma_differs_at_end(m, inv, 1);
        },
    }
}

/// Status and code for a domain error.
pub fn map_err(e: &DomainError) -> (r: (u16, ErrorCode))
    ensures
        r == error_status(*e),
{
    match e {
        DomainError::UnauthorizedActor => (403, ErrorCode::UnauthorizedActor),
        DomainError::AccessDenied => (403, ErrorCode::AccessDenied),
        DomainError::CrewLeadNotFound => (404, ErrorCode::CrewLeadNotFound),
        DomainError::PassengerNotFound => (404, ErrorCode::PassengerNotFound),
        DomainError::ResourceNotFound => (404, ErrorCode::ResourceNotFound),
        DomainError::CrewLeadAlreadyExists => (409, ErrorCode::CrewLeadAlreadyExists),
        DomainError::PassengerAlreadyExists => (409, ErrorCode::PassengerAlreadyExists),
        DomainError::ResourceAlreadyExists => (409, ErrorCode::ResourceAlreadyExists),
        DomainError::CrewLeadLimitReached => (409, ErrorCode::CrewLeadLimitReached),
        DomainError::CrewLeadMinimumBreached => (409, ErrorCode::CrewLeadMinimumBreached),
        DomainError::CrewLeadBootstrapInvalid => (400, ErrorCode::CrewLeadBootstrapInvalid),
        DomainError::VersionConflict => (412, ErrorCode::VersionConflict),
    }
}

/// The error response for a domain error: its status, message and code.
pub fn error_response(e: &DomainError) -> (r: (u16, ErrorBody))
    ensures
        r.0 == error_status(*e).0,
        r.1.code == error_status(*e).1,
        r.1.error@ == error_message(*e),
{
    let (status, code) = map_err(e);
    (status, ErrorBody { error: owned(e.message()), code })
}

/// 400 for input rejected at the boundary.
pub fn bad_request(msg: &str) -> (r: (u16, ErrorBody))
    ensures
        r.0 == 400,
        r.1.code == ErrorCode::InvalidInput,
        r.1.error@ == msg@,
{
    (400, ErrorBody { error: owned(msg), code: ErrorCode::InvalidInput })
}

/// 500 for a failure of the server itself.
pub fn internal_error(msg: &str) -> (r: (u16, ErrorBody))
    ensures
        r.0 == 500,
        r.1.code == ErrorCode::InternalError,
        r.1.error@ == msg@,
{
    (500, ErrorBody { error: owned(msg), code: ErrorCode::InternalError })
}

/// 412 for an `If-Match` version that is not the current one.
pub fn version_conflict() -> (r: (u16, ErrorBody))
    ensures
        r.0 == 412,
        r.1.code == ErrorCode::VersionConflict,
        r.1.error@ == "version conflict \u{2014} record was modified by another request"@,
{
    (
        412,
        ErrorBody {
            error: owned("version conflict \u{2014} record was modified by another request"),
            code: ErrorCode::VersionConflict,
        },
    )
}

/// 401 for a request without a known bearer token.
pub fn unauthenticated() -> (r: (u16, ErrorBody))
    ensures
        r.0 == 401,
        r.1.code == ErrorCode::Unauthorized,
        r.1.error@ == "missing or invalid bearer token"@,
{
    (
        401,
        ErrorBody { error: owned("missing or invalid bearer token"), code: ErrorCode::Unauthorized },
    )
}

// ---------- conditional requests ----------------------------------------

/// `s` without leading double quotes.
pub open spec fn unquote_start(s: Seq<char>) -> Seq<char>
    decreases s.len(),
{
    if s.len() > 0 && s[0] == '"' {
        unquote_start(s.drop_first())
    } else {
        s
    }
}

/// `s` without trailing double quotes.
pub open spec fn unquote_end(s: Seq<char>) -> Seq<char>
    decreases s.len(),
{
    if s.len() > 0 && s.last() == '"' {
        unquote_end(s.drop_last())
    } else {
        s
    }
}

/// `s` without surrounding double quotes (as `trim_matches('"')`).
pub open spec fn unquote(s: Seq<char>) -> Seq<char> {
    unquote_end(unquote_start(s))
}

/// An ASCII decimal digit.
pub open spec fn is_digit(c: char) -> bool {
    48 <= (c as u32) <= 57
}

/// The number an all-digit sequence spells in decimal.
pub open spec fn digits_value(d: Seq<char>) -> nat
    decreases d.len(),
{
    if d.len() == 0 {
        0
    } else {
        digits_value(d.drop_last()) * 10 + ((d.last() as u32) - 48) as nat
    }
}

/// Every character is a digit.
pub open spec fn all_digits(d: Seq<char>) -> bool {
    forall|i: int| 0 <= i < d.len() ==> is_digit(#[trigger] d[i])
}

/// `s` without one leading `+`, if it has one.
pub open spec fn unsigned_part(s: Seq<char>) -> Seq<char> {
    if s.len() > 0 && s[0] == '+' {
        s.drop_first()
    } else {
        s
    }
}

/// `s` as an unsigned 64-bit decimal (as `str::parse::<u64>`): an optional
/// `+`, then at least one digit and nothing else, with a value that fits.
pub open spec fn parse_u64(s: Seq<char>) -> Option<u64> {
    let d = unsigned_part(s);
    if d.len() > 0 && all_digits(d) && digits_value(d) <= u64::MAX {
        Some(digits_value(d) as u64)
    } else {
        None
    }
}

/// The version an `If-Match` header names: its value without surrounding
/// quotes, read as a decimal; nothing when absent or unreadable.
pub open spec fn if_match_version(header: Option<Seq<char>>) -> Option<u64> {
    match header {
        Some(h) => parse_u64(unquote(h)),
        None => None,
    }
}

/// A longer run of digits is worth at least as much as its prefix.
proof fn lemma_digits_prefix(d: Seq<char>, k: int)
    requires
        0 <= k <= d.len(),
        forall|i: int| 0 <= i < d.len() ==> is_digit(#[trigger] d[i]),
    ensures
        digits_value(d.take(k)) <= digits_value(d),
    decreases d.len(),
{
    if k < d.len() {
        assert(d.drop_last().take(k) =~= d.take(k));
        assert forall|i: int| 0 <= i < d.drop_last().len() implies is_digit(
            #[trigger] d.drop_last()[i],
        ) by {
            assert(d.drop_last()[i] == d[i]);
        }
        lemma_digits_prefix(d.drop_last(), k);
    } else {
        assert(d.take(k) =~= d);
    }
}

/// `s` without surrounding double quotes.
fn unquoted(s: &str) -> (r: &str)
    ensures
        r@ == unquote(s@),
{
    let n = s.unicode_len();
    let mut i: usize = 0;
    assert(s@.skip(0) =~= s@);
    while i < n && s.get_char(i) == '"'
        invariant
            n == s@.len(),
            i <= n,
            unquote_start(s@) == unquote_start(s@.skip(i as int)),
        decreases n - i,
    {
        assert(s@.skip(i as int).drop_first() =~= s@.skip(i + 1));
        i += 1;
    }
    assert(unquote_start(s@) == s@.skip(i as int));
    assert(s@.skip(i as int) =~= s@.subrange(i as int, n as int));
    let mut j: usize = n;
    while j > i && s.get_char(j - 1) == '"'
        invariant
            n == s@.len(),
            i <= j <= n,
            unquote(s@) == unquote_end(s@.subrange(i as int, j as int)),
        decreases j,
    {
        assert(s@.subrange(i as int, j as int).drop_last() =~= s@.subrange(i as int, j - 1));
        j -= 1;
    }
    s.substring_char(i, j)
}

/// `s` read as an unsigned 64-bit decimal.
pub fn parse_decimal_u64(s: &str) -> (r: Option<u64>)
    ensures
        r == parse_u64(s@),
{
    let n = s.unicode_len();
    let start: usize = if n > 0 && s.get_char(0) == '+' {
        1
    } else {
        0
    };
    let ghost d = unsigned_part(s@);
    assert(d =~= s@.skip(start as int));
    if start == n {
        return None;
    }
    let mut v: u64 = 0;
    let mut i: usize = start;
    assert(d.take(0) =~= Seq::<char>::empty());
    while i < n
        invariant
            n == s@.len(),
            start <= i <= n,
            d == s@.skip(start as int),
            d == unsigned_part(s@),
            forall|j: int| 0 <= j < i - start ==> is_digit(#[trigger] d[j]),
            v == digits_value(d.take(i - start)),
        decreases n - i,
    {
        let c = s.get_char(i);
        assert(d[i - start] == c);
        let u = c as u32;
        if u < 48 || u > 57 {
            assert(!is_digit(d[i - start]));
            assert(!all_digits(d));
            return None;
        }
        let digit = (u - 48) as u64;
        assert(d.take(i - start + 1).drop_last() =~= d.take(i - start));
        assert(d.take(i - start + 1).last() == c);
        let next = match v.checked_mul(10) {
            Some(t) => t.checked_add(digit),
            None => None,
        };
        match next {
            Some(w) => {
                v = w;
            },
            None => {
                proof {
                    assert(digits_value(d.take(i - start + 1)) == v * 10 + digit);
                    assert(digits_value(d.take(i - start + 1)) > u64::MAX);
                    if all_digits(d) {
                        lemma_digits_prefix(d, i - start + 1);
                    }
                }
                return None;
            },
        }
        i += 1;
    }
    assert(d.take(i - start) =~= d);
    Some(v)
}

/// The version an `If-Match` header names, if it names one.
pub fn parse_if_match(header: Option<&str>) -> (r: Option<u64>)
    ensures
        r == if_match_version(
            match header {
                Some(h) => Some(h@),
                None => None,
            },
        ),
{
    match header {
        Some(h) => parse_decimal_u64(unquoted(h)),
        None => None,
    }
}

/// The decimal digit character of `d` (taken below ten).
pub open spec fn digit_char(d: nat) -> char {
    if d == 0 {
        '0'
    } else if d == 1 {
        '1'
    } else if d == 2 {
        '2'
    } else if d == 3 {
        '3'
    } else if d == 4 {
        '4'
    } else if d == 5 {
        '5'
    } else if d == 6 {
        '6'
    } else if d == 7 {
        '7'
    } else if d == 8 {
        '8'
    } else {
        '9'
    }
}

/// The decimal text of `n`, without leading zeros.
pub open spec fn decimal_chars(n: nat) -> Seq<char>
    decreases n,
{
    if n < 10 {
        seq![digit_char(n)]
    } else {
        decimal_chars(n / 10).push(digit_char(n % 10))
    }
}

/// The entity tag of a record version: the decimal version in double quotes.
pub open spec fn etag_text(version: u64) -> Seq<char> {
    seq!['"'] + decimal_chars(version as nat) + seq!['"']
}

proof fn lemma_digit_char(k: nat)
    requires
        k < 10,
    ensures
        is_digit(digit_char(k)),
        (digit_char(k) as u32) - 48 == k,
{
}

proof fn lemma_decimal_chars(n: nat)
    ensures
        decimal_chars(n).len() > 0,
        all_digits(decimal_chars(n)),
        digits_value(decimal_chars(n)) == n,
    decreases n,
{
    let d = decimal_chars(n);
    lemma_digit_char(n % 10);
    if n < 10 {
        assert(d.drop_last() =~= Seq::<char>::empty());
        assert(d.last() == digit_char(n));
        assert(digits_value(d) == digits_value(d.drop_last()) * 10 + ((d.last() as u32) - 48) as nat);
    } else {
        lemma_decimal_chars(n / 10);
        let prefix = decimal_chars(n / 10);
        assert(d.drop_last() =~= prefix);
        assert forall|i: int| 0 <= i < d.len() implies is_digit(#[trigger] d[i]) by {
            if i < prefix.len() {
                assert(d[i] == prefix[i]);
            }
        }
        assert(d.last() == digit_char(n % 10));
        assert(digits_value(d) == digits_value(prefix) * 10 + ((d.last() as u32) - 48) as nat);
        assert(n == (n / 10) * 10 + n % 10);
    }
}

/// What a client echoes in `If-Match` from an entity tag names the version
/// the tag was made from.
pub proof fn lemma_etag_round_trip(version: u64)
    ensures
        if_match_version(Some(etag_text(version))) == Some(version),
{
    let d = decimal_chars(version as nat);
    lemma_decimal_chars(version as nat);
    let t = etag_text(version);
    assert(t.drop_first() =~= d + seq!['"']);
    assert(unquote_start(d + seq!['"']) == d + seq!['"']) by {
        assert((d + seq!['"'])[0] == d[0]);
        assert(is_digit(d[0]));
    }
    assert((d + seq!['"']).drop_last() =~= d);
    assert(unquote_end(d) == d) by {
        assert(is_digit(d.last()));
    }
    assert(unquote(t) == d);
    assert(is_digit(d[0]));
    assert(unsigned_part(d) == d);
}

/// The digit text of `d`, below ten.
fn digit_text(d: u64) -> (r: &'static str)
    requires
        d < 10,
    ensures
        r@ == seq![digit_char(d as nat)],
{
    proof {
        reveal_strlit("0");
        reveal_strlit("1");
        reveal_strlit("2");
        reveal_strlit("3");
        reveal_strlit("4");
        reveal_strlit("5");
        reveal_strlit("6");
        reveal_strlit("7");
        reveal_strlit("8");
        reveal_strlit("9");
    }
    if d == 0 {
        "0"
    } else if d == 1 {
        "1"
    } else if d == 2 {
        "2"
    } else if d == 3 {
        "3"
    } else if d == 4 {
        "4"
    } else if d == 5 {
        "5"
    } else if d == 6 {
        "6"
    } else if d == 7 {
        "7"
    } else if d == 8 {
        "8"
    } else {
        "9"
    }
}

fn append_decimal(s: &mut String, n: u64)
    ensures
        final(s)@ == old(s)@ + decimal_chars(n as nat),
    decreases n,
{
    if n >= 10 {
        append_decimal(s, n / 10);
    }
    let ghost before = s@;
    s.append(digit_text(n % 10));
    proof {
        if n >= 10 {
            assert(s@ =~= old(s)@ + decimal_chars(n as nat));
        } else {
            assert(s@ =~= old(s)@ + decimal_chars(n as nat));
        }
    }
}

/// The `ETag` header value of a record version.
pub fn etag(version: u64) -> (r: String)
    ensures
        r@ == etag_text(version),
{
    proof {
        reveal_strlit("\"");
    }
    let mut s = owned("\"");
    append_decimal(&mut s, version);
    s.append("\"");
    assert(s@ =~= etag_text(version));
    s
}

/// A conditional mutation is refused when the request names a version and
/// the record exists with another one.
pub fn if_match_fails(expected: Option<u64>, current: Option<u64>) -> (r: bool)
    ensures
        r == (expected is Some && current is Some && expected != current),
{
    match (expected, current) {
        (Some(e), Some(c)) => e != c,
        _ => false,
    }
}

// ---------- paging ------------------------------------------------------

/// The slice `[start, end)` of a listing of `len` entries that a page
/// with `offset` and `limit` shows (as `skip(offset).take(limit)`).
pub fn page_range(len: usize, offset: usize, limit: usize) -> (r: (usize, usize))
    ensures
        r.0 == (if offset < len {
            offset
        } else {
            len
        }),
        r.1 == r.0 + (if limit < len - r.0 {
            limit as int
        } else {
            len - r.0
        }),
        r.0 <= r.1 <= len,
{
    let start = if offset < len {
        offset
    } else {
        len
    };
    let rest = len - start;
    let count = if limit < rest {
        limit
    } else {
        rest
    };
    (start, start + count)
}

// ---------- authentication ----------------------------------------------

/// The actor a bearer token stands for.
#[derive(Debug)]
pub struct AuthActor(pub String);

/// The token of an `Authorization` header: what follows `Bearer `, trimmed.
pub open spec fn bearer_of(h: Seq<char>) -> Option<Seq<char>> {
    if h.len() >= 7 && h.take(7) == "Bearer "@ {
        Some(trim(h.skip(7)))
    } else {
        None
    }
}

/// The key entry carries the token `t`.
pub open spec fn key_for(t: Seq<char>) -> spec_fn((Seq<char>, Seq<char>)) -> bool {
    |p: (Seq<char>, Seq<char>)| p.0 == t
}

/// The actor of the last key entry for the token, if any.
pub open spec fn actor_for(keys: Seq<(Seq<char>, Seq<char>)>, token: Seq<char>) -> Option<Seq<char>> {
    match last_index(keys, key_for(token)) {
        Some(k) => Some(keys[k].1),
        None => None,
    }
}

/// The configured key entries, as text.
pub open spec fn key_views(keys: Seq<(String, String)>) -> Seq<(Seq<char>, Seq<char>)> {
    keys.map_values(|p: (String, String)| (p.0@, p.1@))
}

/// Compares two byte strings in time that does not depend on where they
/// differ (`subtle::ConstantTimeEq::ct_eq` on slices, turned into a
/// `bool`); the contract states that it is byte equality.
#[verifier::external_body]
fn ct_equal(a: &[u8], b: &[u8]) -> (r: bool)
    ensures
        r == (a@ == b@),
{
    a.ct_eq(b).into()
}

/// The token carried by an `Authorization` header value.
pub fn bearer_token(header: &str) -> (r: Option<&str>)
    ensures
        match r {
            Some(t) => bearer_of(header@) == Some(t@),
            None => bearer_of(header@) is None,
        },
{
    if header.unicode_len() < 7 {
        return None;
    }
    let prefix = header.substring_char(0, 7);
    assert(prefix@ =~= header@.take(7));
    if !str_equals(prefix, "Bearer ") {
        return None;
    }
    let rest = header.substring_char(7, header.unicode_len());
    assert(rest@ =~= header@.skip(7));
    Some(trimmed(rest))
}

/// Resolve the `Authorization` header to an actor. Every key entry is
/// compared in constant time, whatever matched before; the last entry for
/// the token wins.
pub fn authenticate(authorization: Option<&str>, keys: &[(String, String)]) -> (r: Option<AuthActor>)
    ensures
        match authorization {
            None => r is None,
            Some(h) => match bearer_of(h@) {
                None => r is None,
                Some(t) => match actor_for(key_views(keys@), t) {
                    Some(a) => r matches Some(x) && x.0@ == a,
                    None => r is None,
                },
            },
        },
{
    let header = match authorization {
        Some(h) => h,
        None => return None,
    };
    let token = match bearer_token(header) {
        Some(t) => t,
        None => return None,
    };
    let ghost views = key_views(keys@);
    let token_bytes = token.as_bytes();
    let mut found: Option<usize> = None;
    let mut i: usize = 0;
    while i < keys.len()
        invariant
            i <= keys@.len(),
            views == key_views(keys@),
            views.len() == keys@.len(),
            token_bytes@ == vstd::utf8::encode_utf8(token@),
            match found {
                Some(k) => k < i && key_for(token@)(views[k as int]) && forall|j: int|
                    k < j < i ==> !key_for(token@)(#[trigger] views[j]),
                None => forall|j: int| 0 <= j < i ==> !key_for(token@)(#[trigger] views[j]),
            },
        decreases keys@.len() - i,
    {
        let same = ct_equal(keys[i].0.as_str().as_bytes(), token_bytes);
        proof {
            vstd::utf8::encode_utf8_decode_utf8(keys@[i as int].0@);
            vstd::utf8::encode_utf8_decode_utf8(token@);
            assert(views[i as int] == (keys@[i as int].0@, keys@[i as int].1@));
        }
        if same {
            found = Some(i);
        }
        i += 1;
    }
    match found {
        Some(k) => {
            proof {
                lemma_last_index_is(views, key_for(token@), k as int);
            }
            Some(AuthActor(keys[k].1.clone()))
        },
        None => None,
    }
}

/// Whether `id` is the id of one of the crew leads; only a crew lead may
/// wipe the server's state.
pub fn listed_lead(leads: &[CrewLead], id: &str) -> (r: bool)
    ensures
        r == exists|i: int| 0 <= i < leads@.len() && (#[trigger] leads@[i]).id@ == id@,
{
    let mut i: usize = 0;
    while i < leads.len()
        invariant
            i <= leads@.len(),
            forall|j: int| 0 <= j < i ==> (#[trigger] leads@[j]).id@ != id@,
        decreases leads@.len() - i,
    {
        if str_equals(leads[i].id.0.as_str(), id) {
            return true;
        }
        i += 1;
    }
    false
}

// ---------- metrics and reports -----------------------------------------

/// How many events have the given outcome.
pub open spec fn outcome_count(events: Seq<UsageEvent>, o: Outcome) -> nat {
    events.filter(|e: UsageEvent| e.outcome == o).len()
}

/// Allowed and denied totals over the events.
pub fn outcome_totals(events: &[UsageEvent]) -> (r: (usize, usize))
    ensures
        r.0 == outcome_count(events@, Outcome::Allowed),
        r.1 == outcome_count(events@, Outcome::Denied),
{
    let mut allowed: usize = 0;
    let mut denied: usize = 0;
    let mut i: usize = 0;
    while i < events.len()
        invariant
            i <= events@.len(),
            allowed == outcome_count(events@.take(i as int), Outcome::Allowed),
            denied == outcome_count(events@.take(i as int), Outcome::Denied),
            allowed + denied <= i,
        decreases events@.len() - i,
    {
        proof {
            reveal_with_fuel(Seq::<_>::filter, 1);
            assert(events@.take(i + 1).drop_last() =~= events@.take(i as int));
        }
        match events[i].outcome {
            Outcome::Allowed => {
                allowed = allowed + 1;
            },
            Outcome::Denied => {
                denied = denied + 1;
            },
        }
        i += 1;
    }
    assert(events@.take(i as int) =~= events@);
    (allowed, denied)
}

/// One metric in the Prometheus text format: its `# HELP` line, its
/// `# TYPE` line and its sample line.
pub open spec fn metric_lines(name: Seq<char>, help: Seq<char>, kind: Seq<char>, value: nat) -> Seq<char> {
    "# HELP "@ + name + " "@ + help + "\n# TYPE "@ + name + " "@ + kind + "\n"@ + name + " "@
        + decimal_chars(value) + "\n"@
}

/// The body of `GET /metrics`: the entity gauges and the event counters, in
/// this order.
pub open spec fn prometheus_text(
    crew_leads: usize,
    passengers: usize,
    resources: usize,
    usage_events: usize,
    allowed: usize,
    denied: usize,
    admin_events: usize,
) -> Seq<char> {
    metric_lines("prms_crew_leads_total"@, "Active crew leads."@, "gauge"@, crew_leads as nat)
        + metric_lines(
        "prms_passengers_active_total"@,
        "Active passengers."@,
        "gauge"@,
        passengers as nat,
    ) + metric_lines(
        "prms_resources_active_total"@,
        "Active resources."@,
        "gauge"@,
        resources as nat,
    ) + metric_lines(
        "prms_usage_events_total"@,
        "Total usage events recorded."@,
        "counter"@,
        usage_events as nat,
    ) + metric_lines(
        "prms_usage_events_allowed_total"@,
        "Usage events with Allowed outcome."@,
        "counter"@,
        allowed as nat,
    ) + metric_lines(
        "prms_usage_events_denied_total"@,
        "Usage events with Denied outcome."@,
        "counter"@,
        denied as nat,
    ) + metric_lines(
        "prms_admin_events_total"@,
        "Total admin events recorded."@,
        "counter"@,
        admin_events as nat,
    )
}

fn append_metric(s: &mut String, name: &str, help: &str, kind: &str, value: usize)
    ensures
        final(s)@ == old(s)@ + metric_lines(name@, help@, kind@, value as nat),
{
    s.append("# HELP ");
    s.append(name);
    s.append(" ");
    s.append(help);
    s.append("\n# TYPE ");
    s.append(name);
    s.append(" ");
    s.append(kind);
    s.append("\n");
    s.append(name);
    s.append(" ");
    append_decimal(s, value as u64);
    s.append("\n");
    assert(s@ =~= old(s)@ + metric_lines(name@, help@, kind@, value as nat));
}

/// The Prometheus text of the server's metrics.
pub fn metrics_text(
    crew_leads: usize,
    passengers: usize,
    resources: usize,
    usage_events: usize,
    allowed: usize,
    denied: usize,
    admin_events: usize,
) -> (s: String)
    ensures
        s@ == prometheus_text(
            crew_leads,
            passengers,
            resources,
            usage_events,
            allowed,
            denied,
            admin_events,
        ),
{
    let mut s = String::new();
    append_metric(&mut s, "prms_crew_leads_total", "Active crew leads.", "gauge", crew_leads);
    append_metric(&mut s, "prms_passengers_active_total", "Active passengers.", "gauge", passengers);
    append_metric(&mut s, "prms_resources_active_total", "Active resources.", "gauge", resources);
    append_metric(
        &mut s,
        "prms_usage_events_total",
        "Total usage events recorded.",
        "counter",
        usage_events,
    );
    append_metric(
        &mut s,
        "prms_usage_events_allowed_total",
        "Usage events with Allowed outcome.",
        "counter",
        allowed,
    );
    append_metric(
        &mut s,
        "prms_usage_events_denied_total",
        "Usage events with Denied outcome.",
        "counter",
        denied,
    );
    append_metric(
        &mut s,
        "prms_admin_events_total",
        "Total admin events recorded.",
        "counter",
        admin_events,
    );
    assert(s@ =~= prometheus_text(
        crew_leads,
        passengers,
        resources,
        usage_events,
        allowed,
        denied,
        admin_events,
    ));
    s
}

/// The tiers in rank order.
pub open spec fn tier_order() -> Seq<Tier> {
    seq![Tier::Silver, Tier::Gold, Tier::Diamond, Tier::Platinum]
}

/// The report row of tier `t`.
pub open spec fn row_matches(row: TierCountsDto, t: Tier, c: TierCounts) -> bool {
    &&& row.tier == tier_dto(t)
    &&& row.allowed == c.allowed
    &&& row.denied == c.denied
}

fn tier_row(t: Tier, c: TierCounts) -> (row: TierCountsDto)
    ensures
        row_matches(row, t, c),
{
    TierCountsDto { tier: TierDto::from(t), allowed: c.allowed, denied: c.denied }
}

/// The rows of a by-tier report: one per tier, in rank order.
pub fn report_rows(report: &TierReport) -> (r: Vec<TierCountsDto>)
    ensures
        r@.len() == 4,
        forall|i: int|
            0 <= i < 4 ==> row_matches(
                #[trigger] r@[i],
                tier_order()[i],
                report_counts(*report, tier_order()[i]),
            ),
{
    let mut rows: Vec<TierCountsDto> = Vec::new();
    rows.push(tier_row(Tier::Silver, report.silver));
    rows.push(tier_row(Tier::Gold, report.gold));
    rows.push(tier_row(Tier::Diamond, report.diamond));
    rows.push(tier_row(Tier::Platinum, report.platinum));
    rows
}

// ---------- idempotent replays ------------------------------------------

/// How long a stored response can be replayed, in seconds.
pub const IDEMPOTENCY_TTL_SECS: u64 = 600;

/// The cache key of an `Idempotency-Key` sent by an actor: `actor:key`,
/// so that two actors using the same key do not see each other's replies.
pub fn scoped_key(actor: &str, key: &str) -> (r: String)
    ensures
        r@ == actor@ + ":"@ + key@,
{
    let mut s = owned(actor);
    s.append(":");
    s.append(key);
    s
}

/// A stored response: status and body.
#[derive(Debug)]
pub struct Replay {
    pub status: u16,
    pub body: Vec<u8>,
}

#[derive(Debug)]
struct CacheEntry {
    key: String,
    status: u16,
    body: Vec<u8>,
    expires_at: u64,
}

/// One cached entry as data: key, status, body, expiry (seconds).
pub type CachedView = (Seq<char>, u16, Seq<u8>, u64);

/// Responses of successful creations, by scoped key, each replayable until
/// its expiry.
#[derive(Debug)]
pub struct IdempotencyCache {
    entries: Vec<CacheEntry>,
}

/// The entry is still live at `now`.
pub open spec fn live_at(now: u64) -> spec_fn(CachedView) -> bool {
    |e: CachedView| e.3 > now
}

/// The entry is stored under `key`.
pub open spec fn keyed(key: Seq<char>) -> spec_fn(CachedView) -> bool {
    |e: CachedView| e.0 == key
}

/// The entry is stored under another key than `key`.
pub open spec fn other_key(key: Seq<char>) -> spec_fn(CachedView) -> bool {
    |e: CachedView| e.0 != key
}

fn copy_entry(e: &CacheEntry) -> (r: CacheEntry)
    ensures
        r.key@ == e.key@,
        r.status == e.status,
        r.body@ == e.body@,
        r.expires_at == e.expires_at,
{
    let body = e.body.clone();
    assert(body@ =~= e.body@);
    CacheEntry { key: e.key.clone(), status: e.status, body, expires_at: e.expires_at }
}

/// A response stored under a key is what a lookup replays until it expires:
/// after `store`, the entries live at `now` end with the stored one, and it
/// is the last entry under its key.
pub proof fn lemma_replay_after_store(
    entries: Seq<CachedView>,
    key: Seq<char>,
    status: u16,
    body: Seq<u8>,
    expires_at: u64,
    now: u64,
)
    requires
        now < expires_at,
    ensures
        ({
            let live = entries.filter(other_key(key)).push((key, status, body, expires_at)).filter(
                live_at(now),
            );
            &&& live.len() > 0
            &&& live.last() == (key, status, body, expires_at)
            &&& last_index(live, keyed(key)) == Some(live.len() - 1)
        }),
{
    let kept = entries.filter(other_key(key));
    let x = (key, status, body, expires_at);
    let stored = kept.push(x);
    reveal_with_fuel(Seq::<_>::filter, 1);
    assert(stored.drop_last() =~= kept);
    let live = stored.filter(live_at(now));
    assert(live == kept.filter(live_at(now)).push(x));
    lemma_last_index_is(live, keyed(key), live.len() - 1);
}

impl IdempotencyCache {
    /// The cached entries, oldest first.
    pub closed spec fn entries(&self) -> Seq<CachedView> {
        self.entries@.map_values(|e: CacheEntry| (e.key@, e.status, e.body@, e.expires_at))
    }

    pub fn new() -> (c: Self)
        ensures
            c.entries() == Seq::<CachedView>::empty(),
    {
        IdempotencyCache { entries: Vec::new() }
    }

    /// Drop the entries expired at `now` (expiry not after `now`), then
    /// return the response stored under `key`, if any.
    pub fn lookup(&mut self, key: &str, now: u64) -> (r: Option<Replay>)
        ensures
            final(self).entries() == old(self).entries().filter(live_at(now)),
            match last_index(final(self).entries(), keyed(key@)) {
                Some(k) => r matches Some(x) && x.status == final(self).entries()[k].1 && x.body@
                    == final(self).entries()[k].2,
                None => r is None,
            },
    {
        let ghost all = self.entries();
        let mut kept: Vec<CacheEntry> = Vec::new();
        let mut i: usize = 0;
        while i < self.entries.len()
            invariant
                i <= self.entries@.len(),
                all == self.entries(),
                all.len() == self.entries@.len(),
                kept@.map_values(|e: CacheEntry| (e.key@, e.status, e.body@, e.expires_at))
                    == all.take(i as int).filter(live_at(now)),
            decreases self.entries@.len() - i,
        {
            proof {
                reveal_with_fuel(Seq::<_>::filter, 1);
                assert(all.take(i + 1).drop_last() =~= all.take(i as int));
            }
            let ghost before = kept@;
            if self.entries[i].expires_at > now {
                let e = copy_entry(&self.entries[i]);
                kept.push(e);
                assert(kept@.map_values(|e: CacheEntry| (e.key@, e.status, e.body@, e.expires_at))
                    =~= before.map_values(|e: CacheEntry| (e.key@, e.status, e.body@, e.expires_at)).push(
                    all[i as int],
                ));
            }
            i += 1;
        }
        assert(all.take(i as int) =~= all);
        self.entries = kept;
        let ghost live = self.entries();
        let mut found: Option<usize> = None;
        let mut j: usize = 0;
        while j < self.entries.len()
            invariant
                j <= self.entries@.len(),
                live == self.entries(),
                live.len() == self.entries@.len(),
                match found {
                    Some(k) => k < j && keyed(key@)(live[k as int]) && forall|l: int|
                        k < l < j ==> !keyed(key@)(#[trigger] live[l]),
                    None => forall|l: int| 0 <= l < j ==> !keyed(key@)(#[trigger] live[l]),
                },
            decreases self.entries@.len() - j,
        {
            if str_equals(self.entries[j].key.as_str(), key) {
                found = Some(j);
            }
            j += 1;
        }
        match found {
            Some(k) => {
                proof {
                    lemma_last_index_is(live, keyed(key@), k as int);
                }
                let body = self.entries[k].body.clone();
                assert(body@ =~= self.entries@[k as int].body@);
                Some(Replay { status: self.entries[k].status, body })
            },
            None => None,
        }
    }

    /// Store the response of a successful creation under `key`, replacing
    /// any earlier one, replayable until `now + IDEMPOTENCY_TTL_SECS`.
    pub fn store(&mut self, key: String, status: u16, body: Vec<u8>, now: u64)
        requires
            now + IDEMPOTENCY_TTL_SECS <= u64::MAX,
        ensures
            final(self).entries() == old(self).entries().filter(other_key(key@)).push(
                (key@, status, body@, (now + IDEMPOTENCY_TTL_SECS) as u64),
            ),
    {
        let ghost all = self.entries();
        let mut kept: Vec<CacheEntry> = Vec::new();
        let mut i: usize = 0;
        while i < self.entries.len()
            invariant
                i <= self.entries@.len(),
                all == self.entries(),
                all.len() == self.entries@.len(),
                kept@.map_values(|e: CacheEntry| (e.key@, e.status, e.body@, e.expires_at))
                    == all.take(i as int).filter(other_key(key@)),
            decreases self.entries@.len() - i,
        {
            proof {
                reveal_with_fuel(Seq::<_>::filter, 1);
                assert(all.take(i + 1).drop_last() =~= all.take(i as int));
            }
            let ghost before = kept@;
            if !(self.entries[i].key == key) {
                let e = copy_entry(&self.entries[i]);
                kept.push(e);
                assert(kept@.map_values(|e: CacheEntry| (e.key@, e.status, e.body@, e.expires_at))
                    =~= before.map_values(|e: CacheEntry| (e.key@, e.status, e.body@, e.expires_at)).push(
                    all[i as int],
                ));
            }
            i += 1;
        }
        assert(all.take(i as int) =~= all);
        let ghost before = kept@;
        let ghost entry_view = (key@, status, body@, (now + IDEMPOTENCY_TTL_SECS) as u64);
        kept.push(CacheEntry { key, status, body, expires_at: now + IDEMPOTENCY_TTL_SECS });
        assert(kept@.map_values(|e: CacheEntry| (e.key@, e.status, e.body@, e.expires_at))
            =~= before.map_values(|e: CacheEntry| (e.key@, e.status, e.body@, e.expires_at)).push(
            entry_view,
        ));
        self.entries = kept;
    }
}

} // verus!
