use event_dispatcher::delivery::{
    AttemptOutcome, NextStep, PostRequest, SendError, BACKOFF_MILLIS,
};
use event_dispatcher::observer::EventObserver;
use serde_json::Value;

fn observer(endpoint: &str) -> EventObserver {
    EventObserver { endpoint: endpoint.to_string() }
}

#[test]
fn url_has_a_slash_before_the_path() {
    let local = observer("localhost:3700");
    assert_eq!(local.url_for("new_block"), "http://localhost:3700/new_block");
    assert_eq!(local.url_for("/new_block"), "http://localhost:3700/new_block");
    assert_eq!(local.url_for("//new_block"), "http://localhost:3700//new_block");
    assert_eq!(local.url_for(""), "http://localhost:3700/");
}

#[test]
fn request_carries_the_serialized_payload() {
    let payload: Value = serde_json::from_str(r#" { "b" : 1, "a" : "q\"uote" } "#).unwrap();
    let request = observer("Example.COM:80").send_payload(&payload, "/hook").unwrap();
    assert_eq!(request.endpoint, "Example.COM:80");
    assert_eq!(request.url.as_str(), "http://example.com/hook");
    assert_eq!(request.header_name, "Content-Type");
    assert_eq!(request.header_value, "application/json");
    assert_eq!(request.body, br#"{"a":"q\"uote","b":1}"#.to_vec());
}

#[test]
fn endpoint_that_makes_no_url_is_refused() {
    match observer("local host:3700").send_payload(&Value::Null, "new_block") {
        Err(SendError::InvalidUrl(url)) => assert_eq!(url, "http://local host:3700/new_block"),
        other => panic!("unexpected: {:?}", other),
    }
}

#[test]
fn payload_that_is_not_serialized_is_refused_first() {
    let refused = PostRequest::assemble("e", None, "http:// /".to_string(), None);
    assert!(matches!(refused, Err(SendError::Serialization)));
    let url = http_types::Url::parse("http://e/").unwrap();
    let refused = PostRequest::assemble("e", None, "http://e/".to_string(), Some(url));
    assert!(matches!(refused, Err(SendError::Serialization)));
}

#[test]
fn assembled_request_holds_its_parts() {
    let url = http_types::Url::parse("http://e/path").unwrap();
    let request =
        PostRequest::assemble("e", Some(vec![1, 2]), "http://e/path".to_string(), Some(url))
            .unwrap();
    assert_eq!(request.endpoint, "e");
    assert_eq!(request.url.as_str(), "http://e/path");
    assert_eq!(request.body, vec![1, 2]);
}

#[test]
fn only_success_ends_a_delivery() {
    assert_eq!(BACKOFF_MILLIS, 1000);
    for status in 200..300 {
        let step = AttemptOutcome::Response(status).next_step();
        assert!(matches!(step, NextStep::Finish));
    }
    for status in [100, 199, 300, 301, 404, 500, 503] {
        let step = AttemptOutcome::Response(status).next_step();
        assert!(matches!(step, NextStep::RetryAfter(1000)));
    }
    let step = AttemptOutcome::ConnectionFailed.next_step();
    assert!(matches!(step, NextStep::RetryAfter(1000)));
    let step = AttemptOutcome::RequestFailed.next_step();
    assert!(matches!(step, NextStep::RetryAfter(1000)));
}

#[test]
fn success_is_decided_as_http_types_does() {
    for code in 0..1000u16 {
        if let Ok(status) = http_types::StatusCode::try_from(code) {
            let finished = matches!(AttemptOutcome::Response(code).next_step(), NextStep::Finish);
            assert_eq!(finished, status.is_success());
        }
    }
}

#[test]
fn delivery_posts_until_the_first_success() {
    let outcomes = [
        AttemptOutcome::ConnectionFailed,
        AttemptOutcome::Response(500),
        AttemptOutcome::RequestFailed,
        AttemptOutcome::Response(201),
        AttemptOutcome::Response(200),
    ];
    let mut posts = 0;
    for outcome in outcomes.iter() {
        posts += 1;
        if let NextStep::Finish = outcome.next_step() {
            break;
        }
    }
    assert_eq!(posts, 4);
}
