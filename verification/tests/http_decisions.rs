use passenger_resource_management::application::reporting_service::{TierCounts, TierReport};
use passenger_resource_management::domain::errors::DomainError;
use passenger_resource_management::domain::passenger::PassengerId;
use passenger_resource_management::domain::resource::ResourceId;
use passenger_resource_management::domain::tier::Tier;
use passenger_resource_management::domain::timestamp::Timestamp;
use passenger_resource_management::domain::usage_event::{Outcome, UsageEvent};
use passenger_resource_management::interface::dto::{ErrorCode, TierDto};
use passenger_resource_management::interface::http::{
    IdempotencyCache, authenticate, bad_request, bearer_token, error_response, if_match_fails,
    map_err, metrics_text, outcome_totals, page_range, parse_decimal_u64, parse_if_match, report_rows, scoped_key,
    unauthenticated, version_conflict,
};

#[test]
fn domain_errors_map_to_statuses() {
    assert_eq!(map_err(&DomainError::UnauthorizedActor), (403, ErrorCode::UnauthorizedActor));
    assert_eq!(map_err(&DomainError::AccessDenied), (403, ErrorCode::AccessDenied));
    assert_eq!(map_err(&DomainError::PassengerNotFound), (404, ErrorCode::PassengerNotFound));
    assert_eq!(map_err(&DomainError::CrewLeadLimitReached), (409, ErrorCode::CrewLeadLimitReached));
    assert_eq!(map_err(&DomainError::CrewLeadBootstrapInvalid), (400, ErrorCode::CrewLeadBootstrapInvalid));
    assert_eq!(map_err(&DomainError::VersionConflict), (412, ErrorCode::VersionConflict));
}

#[test]
fn error_bodies_carry_message_and_code() {
    let (status, body) = error_response(&DomainError::ResourceNotFound);
    assert_eq!(status, 404);
    assert_eq!(body.code, ErrorCode::ResourceNotFound);
    assert_eq!(body.error, "resource not found");
    let (status, body) = bad_request("id must not be empty");
    assert_eq!((status, body.code), (400, ErrorCode::InvalidInput));
    assert_eq!(body.error, "id must not be empty");
    let (status, body) = version_conflict();
    assert_eq!((status, body.code), (412, ErrorCode::VersionConflict));
    let (status, body) = unauthenticated();
    assert_eq!((status, body.code), (401, ErrorCode::Unauthorized));
    assert_eq!(body.error, "missing or invalid bearer token");
}

#[test]
fn decimal_parsing_follows_str_parse() {
    for s in ["0", "42", "+7", "007", "18446744073709551615", "", "+", "-1", "1 ", "x1", "18446744073709551616", "99999999999999999999"] {
        assert_eq!(parse_decimal_u64(s), s.parse::<u64>().ok(), "input {s:?}");
    }
}

#[test]
fn if_match_strips_quotes_then_parses() {
    assert_eq!(parse_if_match(Some("\"3\"")), Some(3));
    assert_eq!(parse_if_match(Some("3")), Some(3));
    assert_eq!(parse_if_match(Some("\"\"12\"\"")), Some(12));
    assert_eq!(parse_if_match(Some("W/\"3\"")), None);
    assert_eq!(parse_if_match(Some("\"\"")), None);
    assert_eq!(parse_if_match(None), None);
}

#[test]
fn conditional_mutation_fails_only_on_a_different_version() {
    assert!(if_match_fails(Some(1), Some(2)));
    assert!(!if_match_fails(Some(2), Some(2)));
    assert!(!if_match_fails(None, Some(2)));
    assert!(!if_match_fails(Some(2), None));
}

#[test]
fn page_range_behaves_like_skip_take() {
    assert_eq!(page_range(10, 0, 100), (0, 10));
    assert_eq!(page_range(10, 3, 4), (3, 7));
    assert_eq!(page_range(10, 8, 4), (8, 10));
    assert_eq!(page_range(10, 50, 4), (10, 10));
    assert_eq!(page_range(0, 0, 0), (0, 0));
}

fn keys() -> Vec<(String, String)> {
    vec![
        ("tok-a".to_owned(), "cl-aria".to_owned()),
        ("tok-b".to_owned(), "ps-001".to_owned()),
        ("tok-a".to_owned(), "cl-noor".to_owned()),
    ]
}

#[test]
fn bearer_token_strips_prefix_and_trims() {
    assert_eq!(bearer_token("Bearer tok-b"), Some("tok-b"));
    assert_eq!(bearer_token("Bearer   tok-b \t"), Some("tok-b"));
    assert_eq!(bearer_token("bearer tok-b"), None);
    assert_eq!(bearer_token("Bearer"), None);
    assert_eq!(bearer_token("Bearer "), Some(""));
}

#[test]
fn authenticate_resolves_the_last_entry_for_a_token() {
    let k = keys();
    assert_eq!(authenticate(Some("Bearer tok-b"), &k).map(|a| a.0), Some("ps-001".to_owned()));
    assert_eq!(authenticate(Some("Bearer tok-a"), &k).map(|a| a.0), Some("cl-noor".to_owned()));
    assert!(authenticate(Some("Bearer tok-c"), &k).is_none());
    assert!(authenticate(Some("Basic tok-a"), &k).is_none());
    assert!(authenticate(None, &k).is_none());
    assert!(authenticate(Some("Bearer tok-a"), &[]).is_none());
}

fn usage(outcome: Outcome) -> UsageEvent {
    UsageEvent {
        id: "u".into(),
        passenger_id: PassengerId::from("p"),
        resource_id: ResourceId::from("r"),
        tier_at_attempt: Tier::Gold,
        min_tier_at_attempt: Tier::Gold,
        timestamp: Timestamp(0),
        outcome,
    }
}

#[test]
fn outcome_totals_count_each_outcome() {
    let events = vec![usage(Outcome::Allowed), usage(Outcome::Denied), usage(Outcome::Allowed)];
    assert_eq!(outcome_totals(&events), (2, 1));
    assert_eq!(outcome_totals(&[]), (0, 0));
}

#[test]
fn report_rows_come_in_rank_order() {
    let report = TierReport {
        silver: TierCounts { allowed: 1, denied: 2 },
        gold: TierCounts { allowed: 0, denied: 0 },
        diamond: TierCounts { allowed: 3, denied: 3 },
        platinum: TierCounts { allowed: 4, denied: 0 },
    };
    let rows = report_rows(&report);
    let tiers: Vec<TierDto> = rows.iter().map(|r| r.tier).collect();
    assert_eq!(tiers, vec![TierDto::Silver, TierDto::Gold, TierDto::Diamond, TierDto::Platinum]);
    assert_eq!((rows[0].allowed, rows[0].denied), (1, 2));
    assert_eq!((rows[3].allowed, rows[3].denied), (4, 0));
}

#[test]
fn metrics_text_renders_every_metric() {
    let text = metrics_text(3, 2, 1, 7, 5, 2, 9);
    let expected = "# HELP prms_crew_leads_total Active crew leads.\n\
         # TYPE prms_crew_leads_total gauge\n\
         prms_crew_leads_total 3\n\
         # HELP prms_passengers_active_total Active passengers.\n\
         # TYPE prms_passengers_active_total gauge\n\
         prms_passengers_active_total 2\n\
         # HELP prms_resources_active_total Active resources.\n\
         # TYPE prms_resources_active_total gauge\n\
         prms_resources_active_total 1\n\
         # HELP prms_usage_events_total Total usage events recorded.\n\
         # TYPE prms_usage_events_total counter\n\
         prms_usage_events_total 7\n\
         # HELP prms_usage_events_allowed_total Usage events with Allowed outcome.\n\
         # TYPE prms_usage_events_allowed_total counter\n\
         prms_usage_events_allowed_total 5\n\
         # HELP prms_usage_events_denied_total Usage events with Denied outcome.\n\
         # TYPE prms_usage_events_denied_total counter\n\
         prms_usage_events_denied_total 2\n\
         # HELP prms_admin_events_total Total admin events recorded.\n\
         # TYPE prms_admin_events_total counter\n\
         prms_admin_events_total 9\n";
    assert_eq!(text, expected);
}

#[test]
fn scoped_key_joins_actor_and_key() {
    assert_eq!(scoped_key("cl-aria", "k-1"), "cl-aria:k-1");
    assert_eq!(scoped_key("", ""), ":");
}

#[test]
fn stored_response_replays_until_it_expires() {
    let mut cache = IdempotencyCache::new();
    cache.store("a:k".into(), 201, b"{\"id\":1}".to_vec(), 1000);
    let hit = cache.lookup("a:k", 1599).expect("live entry");
    assert_eq!(hit.status, 201);
    assert_eq!(hit.body, b"{\"id\":1}".to_vec());
    assert!(cache.lookup("b:k", 1599).is_none());
    assert!(cache.lookup("a:k", 1600).is_none());
}

#[test]
fn storing_again_replaces_the_earlier_response() {
    let mut cache = IdempotencyCache::new();
    cache.store("a:k".into(), 201, b"first".to_vec(), 0);
    cache.store("a:k".into(), 201, b"second".to_vec(), 10);
    assert_eq!(cache.lookup("a:k", 605).map(|r| r.body), Some(b"second".to_vec()));
}
