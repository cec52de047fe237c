use kagerou::geo::{is_transient, retry_lookup, to_location, GeoError, GeoResponse, GEO_LOOKUP_ATTEMPTS};

#[test]
fn geo_only_a_proxy_that_never_answered_is_worth_asking_again() {
    assert!(is_transient(&GeoError::Unreachable("refused".into())));
    assert!(is_transient(&GeoError::Timeout));
    assert!(
        !is_transient(&GeoError::Rejected("Reserved range".into())),
        "the service answered; asking again gets the same answer"
    );
    assert!(
        !is_transient(&GeoError::Http(429)),
        "retrying a rate limit is how a rate limit becomes a ban"
    );
    assert!(!is_transient(&GeoError::Decode("bad json".into())));
}

#[test]
fn tests_only_a_proxy_that_never_answered_is_worth_asking_again() {
    assert!(is_transient(&GeoError::Unreachable("refused".into())));
    assert!(is_transient(&GeoError::Timeout));
    assert!(
        !is_transient(&GeoError::Rejected("Reserved range".into())),
        "the service answered; asking again gets the same answer"
    );
    assert!(
        !is_transient(&GeoError::Http(429)),
        "retrying a rate limit is how a rate limit becomes a ban"
    );
    assert!(!is_transient(&GeoError::Decode("bad json".into())));
}

fn response(success: bool, message: Option<&str>) -> GeoResponse {
    GeoResponse {
        success,
        message: message.map(str::to_string),
        ip: "1.1.1.1".into(),
        city: String::new(),
        country: "Australia".into(),
        country_code: "AU".into(),
    }
}

#[test]
fn an_answer_becomes_the_location_it_names() {
    let location = to_location(response(true, None)).unwrap();
    assert_eq!(location.ip, "1.1.1.1");
    assert_eq!(location.city, "");
    assert_eq!(location.country, "Australia");
    assert_eq!(location.country_code, "AU");
}

#[test]
fn a_refusal_carries_the_services_reason() {
    assert_eq!(
        to_location(response(false, Some("reserved range"))),
        Err(GeoError::Rejected("reserved range".into()))
    );
    assert_eq!(
        to_location(response(false, None)),
        Err(GeoError::Rejected("no reason given".into()))
    );
}

#[test]
fn a_refused_lookup_is_retried_until_the_attempts_run_out() {
    let refused = GeoError::Unreachable("refused".into());
    assert!(retry_lookup(1, &refused));
    assert!(retry_lookup(GEO_LOOKUP_ATTEMPTS - 1, &refused));
    assert!(!retry_lookup(GEO_LOOKUP_ATTEMPTS, &refused));
    assert!(!retry_lookup(1, &GeoError::Http(429)));
}
