use google_signin::client::Client;
use google_signin::error::SigninError;
use google_signin::fetch::{Reply, Step};
use google_signin::text::holds;
use google_signin::token::IdInfo;
use serde_json::Value;

fn info(aud: &str, hd: Option<&str>, iat: u64, exp: u64) -> IdInfo {
    IdInfo {
        iss: "https://accounts.google.com".to_string(),
        sub: "42".to_string(),
        aud: aud.to_string(),
        iat,
        exp,
        hd: hd.map(|d| d.to_string()),
        email: None,
        email_verified: false,
    }
}

fn client(audiences: &[&str], hosted_domains: &[&str]) -> Client {
    let mut client = Client::new();
    client.audiences = audiences.iter().map(|a| a.to_string()).collect();
    client.hosted_domains = hosted_domains.iter().map(|d| d.to_string()).collect();
    client
}

fn object(members: Vec<(&str, Value)>) -> Value {
    let mut map = serde_json::Map::new();
    for (name, value) in members {
        map.insert(name.to_string(), value);
    }
    Value::Object(map)
}

fn full() -> Vec<(&'static str, Value)> {
    vec![
        ("iss", Value::from("accounts.google.com")),
        ("sub", Value::from("42")),
        ("aud", Value::from("app")),
        ("iat", Value::from(1000u64)),
        ("exp", Value::from(2000u64)),
        ("hd", Value::from("example.com")),
        ("email", Value::from("someone@example.com")),
        ("email_verified", Value::from(true)),
    ]
}

#[test]
fn a_new_client_has_nothing_configured() {
    let client = Client::new();
    assert!(client.audiences.is_empty());
    assert!(client.hosted_domains.is_empty());
}

#[test]
fn holds_finds_exactly_the_members() {
    let list = vec!["a".to_string(), "bc".to_string(), "".to_string()];
    assert!(holds(&list, "a"));
    assert!(holds(&list, "bc"));
    assert!(holds(&list, ""));
    assert!(!holds(&list, "b"));
    assert!(!holds(&list, "abc"));
    assert!(!holds(&Vec::new(), "a"));
}

#[test]
fn claims_are_read_from_a_json_object() {
    let found = IdInfo::from_json(&object(full())).unwrap();
    assert_eq!(found.iss, "accounts.google.com");
    assert_eq!(found.sub, "42");
    assert_eq!(found.aud, "app");
    assert_eq!(found.iat, 1000);
    assert_eq!(found.exp, 2000);
    assert_eq!(found.hd.as_deref(), Some("example.com"));
    assert_eq!(found.email.as_deref(), Some("someone@example.com"));
    assert!(found.email_verified);
}

#[test]
fn optional_claims_may_be_missing() {
    let members = full().into_iter().filter(|(name, _)| !["hd", "email", "email_verified"].contains(name)).collect();
    let found = IdInfo::from_json(&object(members)).unwrap();
    assert_eq!(found.hd, None);
    assert_eq!(found.email, None);
    assert!(!found.email_verified);
    assert_eq!(found.sub, "42");
}

#[test]
fn an_email_counts_as_verified_only_where_the_flag_is_true() {
    let mut members = full();
    members.retain(|(name, _)| *name != "email_verified");
    members.push(("email_verified", Value::from(false)));
    assert!(!IdInfo::from_json(&object(members)).unwrap().email_verified);
    let mut members = full();
    members.retain(|(name, _)| *name != "email_verified");
    members.push(("email_verified", Value::from("true")));
    assert!(!IdInfo::from_json(&object(members)).unwrap().email_verified);
}

#[test]
fn required_claims_must_be_there() {
    for missing in ["iss", "sub", "aud", "iat", "exp"] {
        let members = full().into_iter().filter(|(name, _)| *name != missing).collect();
        assert!(IdInfo::from_json(&object(members)).is_none());
    }
    assert!(IdInfo::from_json(&object(vec![])).is_none());
    assert!(IdInfo::from_json(&Value::from("text")).is_none());
    assert!(IdInfo::from_json(&Value::Null).is_none());
}

#[test]
fn required_claims_must_have_their_type() {
    let replacements = vec![
        ("iss", Value::from(1u64)),
        ("sub", Value::from(42u64)),
        ("aud", Value::Array(vec![Value::from("app")])),
        ("iat", Value::from("1000")),
        ("exp", Value::from(-1i64)),
        ("exp", Value::from(2000.5f64)),
    ];
    for (name, value) in replacements {
        let mut members = full();
        members.retain(|(other, _)| *other != name);
        members.push((name, value));
        assert!(IdInfo::from_json(&object(members)).is_none());
    }
}

#[test]
fn claims_of_a_configured_audience_pass() {
    let verifier = client(&["app", "other"], &[]);
    assert_eq!(info("app", None, 1000, 2000).verify(&verifier, 1500), Ok(()));
    assert_eq!(info("other", Some("example.com"), 1000, 2000).verify(&verifier, 1500), Ok(()));
}

#[test]
fn claims_of_another_audience_fail() {
    let verifier = client(&["app", "other"], &[]);
    assert_eq!(info("third", None, 1000, 2000).verify(&verifier, 1500), Err(SigninError::InvalidToken));
    assert_eq!(info("", None, 1000, 2000).verify(&verifier, 1500), Err(SigninError::InvalidToken));
    assert_eq!(info("ap", None, 1000, 2000).verify(&verifier, 1500), Err(SigninError::InvalidToken));
}

#[test]
fn claims_fail_where_no_audience_is_configured() {
    let verifier = client(&[], &[]);
    assert_eq!(info("app", None, 1000, 2000).verify(&verifier, 1500), Err(SigninError::InvalidToken));
}

#[test]
fn the_hosted_domain_is_checked_only_where_domains_are_configured() {
    let open = client(&["app"], &[]);
    let restricted = client(&["app"], &["example.com", "example.org"]);
    assert_eq!(info("app", Some("example.net"), 1000, 2000).verify(&open, 1500), Ok(()));
    assert_eq!(
        info("app", Some("example.net"), 1000, 2000).verify(&restricted, 1500),
        Err(SigninError::InvalidToken)
    );
    assert_eq!(info("app", Some("example.org"), 1000, 2000).verify(&restricted, 1500), Ok(()));
    assert_eq!(info("app", None, 1000, 2000).verify(&open, 1500), Ok(()));
    assert_eq!(info("app", None, 1000, 2000).verify(&restricted, 1500), Err(SigninError::InvalidToken));
}

#[test]
fn claims_are_current_from_issue_to_expiry() {
    let verifier = client(&["app"], &[]);
    let claims = info("app", None, 1000, 2000);
    assert_eq!(claims.verify(&verifier, 0), Err(SigninError::InvalidToken));
    assert_eq!(claims.verify(&verifier, 999), Err(SigninError::InvalidToken));
    assert_eq!(claims.verify(&verifier, 1000), Ok(()));
    assert_eq!(claims.verify(&verifier, 2000), Ok(()));
    assert_eq!(claims.verify(&verifier, 2001), Err(SigninError::InvalidToken));
    assert_eq!(claims.verify(&verifier, u64::MAX), Err(SigninError::InvalidToken));
    assert_eq!(info("app", None, 2000, 1000).verify(&verifier, 1500), Err(SigninError::InvalidToken));
}

#[test]
fn the_unverified_lookup_asks_for_the_tokeninfo_url() {
    let verifier = Client::new();
    match verifier.get_slow_unverified("abc.def.ghi", None) {
        Step::Fetch(url) => {
            assert_eq!(url, "https://www.googleapis.com/oauth2/v3/tokeninfo?id_token=abc.def.ghi")
        }
        other => panic!("expected a fetch, got {:?}", other),
    }
    match verifier.get_slow_unverified("", None) {
        Step::Fetch(url) => assert_eq!(url, "https://www.googleapis.com/oauth2/v3/tokeninfo?id_token="),
        other => panic!("expected a fetch, got {:?}", other),
    }
}

#[test]
fn the_unverified_lookup_hands_out_what_the_provider_reports() {
    let verifier = client(&["app"], &["example.com"]);
    let reply = Reply::Answered {
        status: 200,
        cache_control: Some("max-age=10".to_string()),
        body: Some(info("elsewhere", None, 5, 1)),
    };
    match verifier.get_slow_unverified("abc", Some(reply)) {
        Step::Done(Ok(found)) => {
            assert_eq!(found.aud, "elsewhere");
            assert_eq!(found.sub, "42");
            assert_eq!(found.iat, 5);
            assert_eq!(found.exp, 1);
        }
        other => panic!("expected claims, got {:?}", other),
    }
}

#[test]
fn the_unverified_lookup_reports_failures() {
    let verifier = Client::new();
    let refused = Reply::Answered { status: 400, cache_control: None, body: Some(info("app", None, 0, 1)) };
    assert!(matches!(
        verifier.get_slow_unverified("abc", Some(refused)),
        Step::Done(Err(SigninError::InvalidToken))
    ));
    let garbled = Reply::Answered { status: 200, cache_control: None, body: None };
    assert!(matches!(
        verifier.get_slow_unverified("abc", Some(garbled)),
        Step::Done(Err(SigninError::ConnectionError))
    ));
    assert!(matches!(
        verifier.get_slow_unverified("abc", Some(Reply::Failed)),
        Step::Done(Err(SigninError::ConnectionError))
    ));
}
