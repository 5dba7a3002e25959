use google_signin::cache::CachedCerts;
use google_signin::cert::Cert;
use google_signin::client::Client;
use google_signin::error::SigninError;
use google_signin::fetch::{expiry_after, expiry_granted, is_success, Reply, Step};

const CERTS_URL: &str = "https://www.googleapis.com/oauth2/v2/certs";

fn cert(kid: &str, n: &str) -> Cert {
    Cert::new(
        kid.to_string(),
        "AQAB".to_string(),
        "RSA".to_string(),
        "RS256".to_string(),
        n.to_string(),
        "sig".to_string(),
    )
}

fn answer(status: u16, cache_control: Option<&str>, body: Option<Vec<Cert>>) -> Reply<Vec<Cert>> {
    Reply::Answered { status, cache_control: cache_control.map(|v| v.to_string()), body }
}

fn kids(cache: &CachedCerts) -> Vec<String> {
    cache.get_range(&None).unwrap().iter().map(|c| c.kid().to_string()).collect()
}

#[test]
fn the_certs_url_is_the_providers() {
    assert_eq!(CachedCerts::certs_url(), CERTS_URL);
}

#[test]
fn a_new_cache_is_empty_and_stale() {
    let cache = CachedCerts::new();
    assert_eq!(cache.len(), 0);
    assert!(cache.is_empty());
    assert_eq!(cache.expiry(), None);
    assert!(cache.is_stale(0));
    assert!(cache.is_stale(u64::MAX));
}

#[test]
fn expiry_is_now_plus_max_age() {
    assert_eq!(expiry_after(100, Some(60)), Some(160));
    assert_eq!(expiry_after(0, Some(0)), Some(0));
    assert_eq!(expiry_after(1_700_000_000, Some(21_600)), Some(1_700_021_600));
    assert_eq!(expiry_after(100, None), None);
    assert_eq!(expiry_after(u64::MAX - 1, Some(1)), Some(u64::MAX));
    assert_eq!(expiry_after(u64::MAX, Some(1)), None);
    assert_eq!(expiry_after(1, Some(u64::MAX)), None);
}

#[test]
fn max_age_is_read_from_the_header() {
    assert_eq!(expiry_granted(&Some("max-age=60".to_string()), 1000), Some(1060));
    assert_eq!(
        expiry_granted(&Some("public, max-age=22302, must-revalidate, no-transform".to_string()), 5),
        Some(22307)
    );
    assert_eq!(expiry_granted(&Some("max-age=0".to_string()), 1000), Some(1000));
}

#[test]
fn no_lifetime_without_a_usable_max_age() {
    assert_eq!(expiry_granted(&None, 1000), None);
    assert_eq!(expiry_granted(&Some("".to_string()), 1000), None);
    assert_eq!(expiry_granted(&Some("no-store".to_string()), 1000), None);
    assert_eq!(expiry_granted(&Some("max-age".to_string()), 1000), None);
    assert_eq!(expiry_granted(&Some("max-age=soon".to_string()), 1000), None);
    assert_eq!(expiry_granted(&Some("max-age=-5".to_string()), 1000), None);
    assert_eq!(expiry_granted(&Some("max-age=60".to_string()), u64::MAX), None);
}

#[test]
fn google() {
    let mut certs = CachedCerts::new();
    let mut now = 1_700_000_000;
    let mut answers = vec![answer(
        200,
        Some("public, max-age=19204, must-revalidate, no-transform"),
        Some(vec![cert("c1", "1"), cert("c2", "2")]),
    )];
    let mut refresh = |certs: &mut CachedCerts| -> Result<bool, SigninError> {
        now += 1;
        let mut reply = None;
        loop {
            match certs.refresh_if_needed(now, reply.take()) {
                Step::Done(result) => return result,
                Step::Fetch(url) => {
                    assert_eq!(url, CERTS_URL);
                    reply = Some(answers.pop().unwrap_or(Reply::Failed));
                }
            }
        }
    };
    let first = refresh(&mut certs).expect("failed");
    let second = refresh(&mut certs).expect("failed");
    assert_eq!(first, true);
    assert_eq!(second, false);
}

#[test]
fn first_refresh_answers_true_and_the_next_false() {
    let mut cache = CachedCerts::new();
    match cache.refresh_if_needed(1000, None) {
        Step::Fetch(url) => assert_eq!(url, CERTS_URL),
        other => panic!("expected a fetch, got {:?}", other),
    }
    assert!(cache.is_empty());
    let reply = answer(200, Some("public, max-age=3600"), Some(vec![cert("k1", "1")]));
    match cache.refresh_if_needed(1000, Some(reply)) {
        Step::Done(Ok(updated)) => assert!(updated),
        other => panic!("expected an update, got {:?}", other),
    }
    assert_eq!(cache.expiry(), Some(4600));
    assert_eq!(kids(&cache), vec!["k1"]);
    match cache.refresh_if_needed(1000, None) {
        Step::Done(Ok(updated)) => assert!(!updated),
        other => panic!("expected no update, got {:?}", other),
    }
    match cache.refresh_if_needed(4599, None) {
        Step::Done(Ok(updated)) => assert!(!updated),
        other => panic!("expected no update, got {:?}", other),
    }
    assert_eq!(cache.expiry(), Some(4600));
    assert_eq!(kids(&cache), vec!["k1"]);
}

#[test]
fn a_fresh_cache_ignores_a_reply() {
    let mut cache = CachedCerts::new();
    let first = answer(200, Some("max-age=100"), Some(vec![cert("k1", "1")]));
    assert!(matches!(cache.refresh_if_needed(0, Some(first)), Step::Done(Ok(true))));
    let second = answer(200, Some("max-age=500"), Some(vec![cert("k2", "2")]));
    assert!(matches!(cache.refresh_if_needed(99, Some(second)), Step::Done(Ok(false))));
    assert_eq!(cache.expiry(), Some(100));
    assert_eq!(kids(&cache), vec!["k1"]);
}

#[test]
fn refresh_answers_true_again_once_the_expiry_is_reached() {
    let mut cache = CachedCerts::new();
    let first = answer(200, Some("max-age=100"), Some(vec![cert("k1", "1")]));
    assert!(matches!(cache.refresh_if_needed(1000, Some(first)), Step::Done(Ok(true))));
    assert!(!cache.is_stale(1099));
    assert!(cache.is_stale(1100));
    match cache.refresh_if_needed(1100, None) {
        Step::Fetch(url) => assert_eq!(url, CERTS_URL),
        other => panic!("expected a fetch, got {:?}", other),
    }
    let second = answer(200, Some("max-age=50"), Some(vec![cert("k2", "2"), cert("k3", "3")]));
    assert!(matches!(cache.refresh_if_needed(1100, Some(second)), Step::Done(Ok(true))));
    assert_eq!(cache.expiry(), Some(1150));
    assert_eq!(kids(&cache), vec!["k2", "k3"]);
}

#[test]
fn a_forced_expiry_makes_the_cache_stale() {
    let mut cache = CachedCerts::new();
    let first = answer(200, Some("max-age=100"), Some(vec![cert("k1", "1")]));
    assert!(matches!(cache.refresh_if_needed(1000, Some(first)), Step::Done(Ok(true))));
    cache.set_expiry(None);
    assert_eq!(cache.expiry(), None);
    assert_eq!(kids(&cache), vec!["k1"]);
    let second = answer(200, Some("max-age=100"), Some(vec![cert("k1", "again")]));
    assert!(matches!(cache.refresh_if_needed(1001, Some(second)), Step::Done(Ok(true))));
    assert_eq!(cache.get_range(&None).unwrap()[0].n(), "again");
}

#[test]
fn a_refresh_replaces_the_keys_and_does_not_merge() {
    let mut cache = CachedCerts::new();
    let first = answer(200, None, Some(vec![cert("k1", "1"), cert("k2", "2")]));
    assert!(matches!(cache.refresh_if_needed(1000, Some(first)), Step::Done(Ok(true))));
    let second = answer(200, None, Some(vec![cert("k3", "3")]));
    assert!(matches!(cache.refresh_if_needed(1000, Some(second)), Step::Done(Ok(true))));
    assert_eq!(kids(&cache), vec!["k3"]);
}

#[test]
fn duplicate_kids_in_one_reply_collapse_to_the_last() {
    let mut cache = CachedCerts::new();
    let reply = answer(200, None, Some(vec![cert("k1", "first"), cert("k1", "second")]));
    assert!(matches!(cache.refresh_if_needed(1000, Some(reply)), Step::Done(Ok(true))));
    assert_eq!(cache.len(), 1);
    assert_eq!(cache.get_range(&Some("k1".to_string())).unwrap()[0].n(), "second");
}

#[test]
fn without_max_age_every_call_refreshes() {
    let mut cache = CachedCerts::new();
    for header in [None, Some("no-cache"), Some("max-age=later"), Some("max-age=-1")] {
        let reply = answer(200, header, Some(vec![cert("k1", "1")]));
        assert!(matches!(cache.refresh_if_needed(1000, Some(reply)), Step::Done(Ok(true))));
        assert_eq!(cache.expiry(), None);
        assert!(matches!(cache.refresh_if_needed(1000, None), Step::Fetch(_)));
    }
}

#[test]
fn a_refresh_without_max_age_unsets_an_earlier_expiry() {
    let mut cache = CachedCerts::new();
    let first = answer(200, Some("max-age=10"), Some(vec![cert("k1", "1")]));
    assert!(matches!(cache.refresh_if_needed(1000, Some(first)), Step::Done(Ok(true))));
    assert_eq!(cache.expiry(), Some(1010));
    let second = answer(200, None, Some(vec![cert("k1", "1")]));
    assert!(matches!(cache.refresh_if_needed(1010, Some(second)), Step::Done(Ok(true))));
    assert_eq!(cache.expiry(), None);
}

#[test]
fn http_500_is_a_connection_error_and_leaves_the_cache_alone() {
    let mut cache = CachedCerts::new();
    let first = answer(200, Some("max-age=100"), Some(vec![cert("k1", "1"), cert("k2", "2")]));
    assert!(matches!(cache.refresh_if_needed(1000, Some(first)), Step::Done(Ok(true))));
    let failed = answer(500, Some("max-age=1000"), None);
    match cache.refresh_if_needed(2000, Some(failed)) {
        Step::Done(Err(error)) => assert_eq!(error, SigninError::ConnectionError),
        other => panic!("expected an error, got {:?}", other),
    }
    assert_eq!(cache.expiry(), Some(1100));
    assert_eq!(kids(&cache), vec!["k1", "k2"]);
    assert_eq!(cache.get_range(&Some("k2".to_string())).unwrap()[0].n(), "2");
}

#[test]
fn http_500_on_an_empty_cache_is_a_connection_error() {
    let mut cache = CachedCerts::new();
    let failed = answer(500, None, None);
    assert!(matches!(
        cache.refresh_if_needed(0, Some(failed)),
        Step::Done(Err(SigninError::ConnectionError))
    ));
    assert!(cache.is_empty());
    assert_eq!(cache.expiry(), None);
}

#[test]
fn a_failed_request_leaves_the_cache_alone() {
    let mut cache = CachedCerts::new();
    let first = answer(200, Some("max-age=100"), Some(vec![cert("k1", "1")]));
    assert!(matches!(cache.refresh_if_needed(1000, Some(first)), Step::Done(Ok(true))));
    assert!(matches!(
        cache.refresh_if_needed(2000, Some(Reply::Failed)),
        Step::Done(Err(SigninError::ConnectionError))
    ));
    assert_eq!(cache.expiry(), Some(1100));
    assert_eq!(kids(&cache), vec!["k1"]);
}

#[test]
fn an_unreadable_body_leaves_the_cache_alone() {
    let mut cache = CachedCerts::new();
    let first = answer(200, Some("max-age=100"), Some(vec![cert("k1", "1")]));
    assert!(matches!(cache.refresh_if_needed(1000, Some(first)), Step::Done(Ok(true))));
    let garbled = answer(200, Some("max-age=1000"), None);
    assert!(matches!(
        cache.refresh_if_needed(2000, Some(garbled)),
        Step::Done(Err(SigninError::ConnectionError))
    ));
    assert_eq!(cache.expiry(), Some(1100));
    assert_eq!(kids(&cache), vec!["k1"]);
}

#[test]
fn a_copy_of_the_cache_holds_the_same() {
    let mut cache = CachedCerts::new();
    let reply = answer(200, Some("max-age=100"), Some(vec![cert("k2", "2"), cert("k1", "1")]));
    assert!(matches!(cache.refresh_if_needed(1000, Some(reply)), Step::Done(Ok(true))));
    let copy = cache.clone();
    cache.set_expiry(None);
    assert_eq!(copy.expiry(), Some(1100));
    assert_eq!(kids(&copy), vec!["k1", "k2"]);
    assert_eq!(copy.get_range(&Some("k2".to_string())).unwrap()[0].n(), "2");
}

#[test]
fn load_reports_what_the_reply_amounts_to() {
    let mut cache = CachedCerts::new();
    let first = answer(200, Some("max-age=100"), Some(vec![cert("k1", "1")]));
    assert_eq!(cache.load(1000, first), Ok(()));
    assert_eq!(cache.expiry(), Some(1100));
    assert_eq!(kids(&cache), vec!["k1"]);
    let newer = answer(200, None, Some(vec![cert("k2", "2")]));
    assert_eq!(cache.load(1001, newer), Ok(()));
    assert_eq!(cache.expiry(), None);
    assert_eq!(kids(&cache), vec!["k2"]);
    let refused = answer(503, Some("max-age=100"), Some(vec![cert("k3", "3")]));
    assert_eq!(cache.load(1002, refused), Err(SigninError::InvalidToken));
    assert_eq!(cache.load(1002, Reply::Failed), Err(SigninError::ConnectionError));
    assert_eq!(cache.load(1002, answer(200, None, None)), Err(SigninError::ConnectionError));
    assert_eq!(cache.expiry(), None);
    assert_eq!(kids(&cache), vec!["k2"]);
}

#[test]
fn a_status_from_200_to_299_is_a_success() {
    for status in [200u16, 201, 204, 250, 299] {
        assert!(is_success(status));
    }
    for status in [0u16, 100, 199, 300, 304, 404, 500, u16::MAX] {
        assert!(!is_success(status));
    }
}

#[test]
fn only_statuses_from_200_to_299_succeed() {
    for status in [0u16, 100, 199, 300, 301, 404, 500, 503, u16::MAX] {
        let mut cache = CachedCerts::new();
        let reply = answer(status, None, Some(vec![cert("k1", "1")]));
        assert!(matches!(
            cache.refresh_if_needed(0, Some(reply)),
            Step::Done(Err(SigninError::ConnectionError))
        ));
        assert!(cache.is_empty());
    }
    for status in [200u16, 204, 299] {
        let mut cache = CachedCerts::new();
        let reply = answer(status, None, Some(vec![cert("k1", "1")]));
        assert!(matches!(cache.refresh_if_needed(0, Some(reply)), Step::Done(Ok(true))));
        assert_eq!(cache.len(), 1);
    }
}

#[test]
fn get_range_without_a_kid_gives_all_in_order() {
    let mut cache = CachedCerts::new();
    let reply = answer(200, None, Some(vec![cert("k2", "2"), cert("k1", "1"), cert("k3", "3")]));
    assert!(matches!(cache.refresh_if_needed(0, Some(reply)), Step::Done(Ok(true))));
    assert_eq!(kids(&cache), vec!["k1", "k2", "k3"]);
    let empty = CachedCerts::new();
    assert!(empty.get_range(&None).unwrap().is_empty());
}

#[test]
fn get_range_with_a_known_kid_gives_that_certificate() {
    let mut cache = CachedCerts::new();
    let reply = answer(200, None, Some(vec![cert("k2", "2"), cert("k1", "1")]));
    assert!(matches!(cache.refresh_if_needed(0, Some(reply)), Step::Done(Ok(true))));
    let range = cache.get_range(&Some("k2".to_string())).unwrap();
    assert_eq!(range.len(), 1);
    assert_eq!(range[0].kid(), "k2");
    assert_eq!(range[0].n(), "2");
}

#[test]
fn get_range_with_an_unknown_kid_fails() {
    let mut cache = CachedCerts::new();
    let reply = answer(200, None, Some(vec![cert("k2", "2")]));
    assert!(matches!(cache.refresh_if_needed(0, Some(reply)), Step::Done(Ok(true))));
    assert_eq!(cache.get_range(&Some("k1".to_string())).err(), Some(SigninError::UnknownKey));
    let empty = CachedCerts::new();
    assert_eq!(empty.get_range(&Some("k1".to_string())).err(), Some(SigninError::UnknownKey));
}

#[test]
fn get_any_hands_out_the_body_and_notes_the_expiry() {
    let mut expiry = None;
    let reply = Reply::Answered {
        status: 200,
        cache_control: Some("max-age=30".to_string()),
        body: Some(7u32),
    };
    assert_eq!(Client::get_any(reply, 100, &mut expiry), Ok(7));
    assert_eq!(expiry, Some(130));
}

#[test]
fn get_any_keeps_the_expiry_without_max_age() {
    let mut expiry = Some(5);
    let reply = Reply::Answered { status: 200, cache_control: None, body: Some(7u32) };
    assert_eq!(Client::get_any(reply, 100, &mut expiry), Ok(7));
    assert_eq!(expiry, Some(5));
}

#[test]
fn get_any_turns_other_replies_into_errors() {
    let mut expiry = Some(5);
    let refused = Reply::Answered {
        status: 404,
        cache_control: Some("max-age=30".to_string()),
        body: Some(7u32),
    };
    assert_eq!(Client::get_any(refused, 100, &mut expiry), Err(SigninError::InvalidToken));
    assert_eq!(expiry, Some(5));
    let garbled: Reply<u32> = Reply::Answered {
        status: 200,
        cache_control: Some("max-age=30".to_string()),
        body: None,
    };
    assert_eq!(Client::get_any(garbled, 100, &mut expiry), Err(SigninError::ConnectionError));
    assert_eq!(expiry, Some(5));
    let failed: Reply<u32> = Reply::Failed;
    assert_eq!(Client::get_any(failed, 100, &mut expiry), Err(SigninError::ConnectionError));
    assert_eq!(expiry, Some(5));
}

#[test]
fn errors_describe_themselves() {
    assert_eq!(SigninError::ConnectionError.message(), "connection error");
    assert_eq!(SigninError::UnknownKey.message(), "unknown key");
    assert_eq!(SigninError::InvalidToken.message(), "invalid token");
    assert_eq!(SigninError::MalformedHeader.message(), "malformed header");
}
