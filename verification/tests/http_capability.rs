use tempest::models::{RunOptions, TestResult, TestSpec};
use tempest::pipeline::runners::{HttpReply, HttpRequest, HttpResponse, HttpVerb};
use tempest::pipeline::test_capabilities::{HttpTestCapability, TestCapability};

fn capability(url: &str, test: &TestSpec) -> HttpTestCapability {
    HttpTestCapability::new(url, &RunOptions::default(), test)
}

fn test_model(route: &str, verb: Option<&str>) -> TestSpec {
    let mut t = TestSpec::with_route(route.to_string());
    t.verb = verb.map(str::to_string);
    t
}

fn response(status: u16, headers: Vec<(&str, &str)>, body: &str, duration_ms: u64) -> Option<HttpReply> {
    Some(HttpReply::Response(HttpResponse {
        status,
        reason: String::new(),
        headers: headers.into_iter().map(|(k, v)| (k.to_string(), v.to_string())).collect(),
        bytes: body.as_bytes().to_vec(),
        duration_ms,
    }))
}

/// The request a capability sends and the result it gives for `reply`.
fn exchange(cap: &HttpTestCapability, reply: Option<HttpReply>) -> (Option<HttpRequest>, TestResult) {
    (cap.request(), cap.test(reply))
}

#[test]
fn get_returns_status_and_body() {
    let cap = capability("http://h/ping", &test_model("/ping", Some("GET")));
    let (req, result) = exchange(&cap, response(200, vec![], "pong", 1));
    let req = req.unwrap();
    assert_eq!(req.verb, HttpVerb::Get);
    assert_eq!(req.url, "http://h/ping");
    assert_eq!(result.status.code, 200);
    assert_eq!(result.body, "pong");
}

#[test]
fn verb_defaults_to_get_when_not_set() {
    let cap = capability("http://h/default", &test_model("/default", None));
    let (req, result) = exchange(&cap, response(200, vec![], "", 1));
    assert_eq!(req.unwrap().verb, HttpVerb::Get);
    assert_eq!(result.status.code, 200);
}

#[test]
fn post_sends_body_and_receives_response() {
    let mut test = test_model("/submit", Some("POST"));
    test.body = Some("hello body".to_string());
    let cap = capability("http://h/submit", &test);
    let (req, result) = exchange(&cap, response(201, vec![], "", 1));
    let req = req.unwrap();
    assert_eq!(req.verb, HttpVerb::Post);
    assert_eq!(req.body.as_deref(), Some("hello body"));
    assert_eq!(result.status.code, 201);
}

#[test]
fn put_sends_body() {
    let mut test = test_model("/item/1", Some("PUT"));
    test.body = Some("updated".to_string());
    let cap = capability("http://h/item/1", &test);
    let (req, result) = exchange(&cap, response(200, vec![], "", 1));
    let req = req.unwrap();
    assert_eq!(req.verb, HttpVerb::Put);
    assert_eq!(req.body.as_deref(), Some("updated"));
    assert_eq!(result.status.code, 200);
}

#[test]
fn delete_returns_expected_status() {
    let cap = capability("http://h/item/1", &test_model("/item/1", Some("DELETE")));
    let (req, result) = exchange(&cap, response(204, vec![], "", 1));
    let req = req.unwrap();
    assert_eq!(req.verb, HttpVerb::Delete);
    assert!(req.body.is_none());
    assert_eq!(result.status.code, 204);
}

#[test]
fn unknown_verb_returns_default_result_without_sending_request() {
    let cap = capability("http://127.0.0.1:1", &test_model("http://127.0.0.1:1", Some("FOOBAR")));
    let (req, result) = exchange(&cap, None);
    assert!(req.is_none());
    assert_eq!(result.status.code, 0, "unknown verb should yield zero status, not a network attempt");
    assert!(result.body.is_empty());
}

#[test]
fn custom_request_headers_are_forwarded() {
    let mut test = test_model("/headers", Some("GET"));
    test.headers = Some(vec![
        ("x-api-key".to_string(), "secret".to_string()),
        ("accept".to_string(), "application/json".to_string()),
    ]);
    let cap = capability("http://h/headers", &test);
    let (req, result) = exchange(&cap, response(200, vec![], "", 1));
    assert_eq!(
        req.unwrap().headers,
        vec![
            ("x-api-key".to_string(), "secret".to_string()),
            ("accept".to_string(), "application/json".to_string()),
        ]
    );
    assert_eq!(result.status.code, 200);
}

#[test]
fn response_headers_are_captured() {
    let cap = capability("http://h/hdr", &test_model("/hdr", Some("GET")));
    let (_, result) = exchange(&cap, response(200, vec![("x-custom", "tempest")], "", 1));
    assert!(result.headers.iter().any(|(k, v)| k == "x-custom" && v == "tempest"));
}

#[test]
fn connection_error_produces_504_status() {
    let cap = capability("http://127.0.0.1:1/nope", &test_model("http://127.0.0.1:1/nope", Some("GET")));
    let reply = Some(HttpReply::Failure { message: "connection refused".to_string(), duration_ms: 2 });
    let (_, result) = exchange(&cap, reply);
    assert_eq!(result.status.code, 504);
    assert!(!result.status.message.is_empty());
}

#[test]
fn duration_is_measured_for_successful_requests() {
    let cap = capability("http://h/slow", &test_model("/slow", Some("GET")));
    let (_, result) = exchange(&cap, response(200, vec![], "", 7));
    assert_eq!(result.duration_ms, 7);
}
