use passenger_resource_management::domain::text::{split_text, str_precedes, trimmed};
use passenger_resource_management::interface::config::{parse_api_keys, parse_cors_origins};

fn pairs(v: &[(&str, &str)]) -> Vec<(String, String)> {
    v.iter().map(|(a, b)| ((*a).to_owned(), (*b).to_owned())).collect()
}

#[test]
fn api_keys_are_trimmed_and_malformed_entries_skipped() {
    let keys = parse_api_keys(Some(" tok-a : cl-aria ,, tok-b:ps-001,nocolon, :x , c:d:e"));
    assert_eq!(
        keys,
        pairs(&[("tok-a", "cl-aria"), ("tok-b", "ps-001"), ("", "x"), ("c", "d:e")])
    );
}

#[test]
fn no_api_key_list_configures_nothing() {
    assert!(parse_api_keys(None).is_empty());
    assert!(parse_api_keys(Some("")).is_empty());
    assert!(parse_api_keys(Some(" , ,")).is_empty());
}

#[test]
fn cors_any_when_unset_or_empty() {
    assert_eq!(parse_cors_origins(None), None);
    assert_eq!(parse_cors_origins(Some("")), None);
}

#[test]
fn cors_list_is_trimmed_without_empty_entries() {
    assert_eq!(
        parse_cors_origins(Some("https://a.example, ,http://b.example ")),
        Some(vec!["https://a.example".to_owned(), "http://b.example".to_owned()])
    );
    assert_eq!(parse_cors_origins(Some("  ")), Some(Vec::new()));
}

#[test]
fn trimming_and_splitting_follow_std() {
    for s in ["", "  a b  ", "\u{3000}x\u{2028}", "\t\n", "abc"] {
        assert_eq!(trimmed(s), s.trim());
    }
    for s in ["", ",", "a,,b", ",x,", "one"] {
        assert_eq!(split_text(s, ','), s.split(',').collect::<Vec<_>>());
    }
}

#[test]
fn precedence_is_string_order() {
    let words = ["", "a", "ab", "b", "ra", "rb", "é", "z"];
    for x in words {
        for y in words {
            assert_eq!(str_precedes(x, y), x < y, "{x:?} < {y:?}");
        }
    }
}
