use req::error::InputError;
use req::headers::HeaderEntry;
use req::middleware::{middleware_chain, Link, Outcome, ResponseHead};
use req::request::{Body, Method, RequestDescriptor};
use req::VerboseMiddleware;
use serde_json::{Number, Value};

fn entry(name: &str, value: &str) -> HeaderEntry {
    HeaderEntry {
        name: name.to_string(),
        value: value.to_string(),
    }
}

fn request(headers: Vec<HeaderEntry>, body: Body) -> RequestDescriptor {
    RequestDescriptor {
        url: "http://localhost:5000/signup".to_string(),
        method: Method::Post,
        query: vec![("ignored".to_string(), "here".to_string())],
        headers,
        body,
    }
}

#[test]
fn redirects_wrap_tracing() {
    assert_eq!(
        middleware_chain(false, true),
        vec![Link::FollowRedirects, Link::Trace]
    );
    assert_eq!(middleware_chain(false, false), vec![Link::FollowRedirects]);
    assert_eq!(middleware_chain(true, true), vec![Link::Trace]);
    assert_eq!(middleware_chain(true, false), Vec::new());
}

#[test]
fn a_bare_request_is_one_line_and_the_separator() {
    let lines = VerboseMiddleware.request_lines(&request(Vec::new(), Body::Empty));
    assert_eq!(
        lines,
        Ok(vec![
            "POST http://localhost:5000/signup".to_string(),
            "==========".to_string(),
        ])
    );
}

#[test]
fn headers_and_text_body_are_listed() {
    let lines = VerboseMiddleware.request_lines(&request(
        vec![entry("Accept", "*/*"), entry("Cookie", "a=1; b=2")],
        Body::Text("a=1&b=2".to_string()),
    ));
    assert_eq!(
        lines,
        Ok(vec![
            "POST http://localhost:5000/signup".to_string(),
            "Headers:".to_string(),
            "Accept: */*".to_string(),
            "Cookie: a=1; b=2".to_string(),
            "Body:".to_string(),
            "a=1&b=2".to_string(),
            "==========".to_string(),
        ])
    );
}

#[test]
fn bytes_are_counted() {
    let lines = VerboseMiddleware.request_lines(&request(Vec::new(), Body::Bytes(vec![0; 1234])));
    assert_eq!(
        lines,
        Ok(vec![
            "POST http://localhost:5000/signup".to_string(),
            "Body:".to_string(),
            "<1234 bytes>".to_string(),
            "==========".to_string(),
        ])
    );
}

#[test]
fn empty_bytes_and_empty_text_show_no_body() {
    let bare = Ok(vec![
        "POST http://localhost:5000/signup".to_string(),
        "==========".to_string(),
    ]);
    assert_eq!(
        VerboseMiddleware.request_lines(&request(Vec::new(), Body::Bytes(Vec::new()))),
        bare
    );
    assert_eq!(
        VerboseMiddleware.request_lines(&request(Vec::new(), Body::Text(String::new()))),
        bare
    );
    assert!(VerboseMiddleware.body_is_empty(&Body::Empty));
    assert!(!VerboseMiddleware.body_is_empty(&Body::Json(Value::Null)));
    assert!(!VerboseMiddleware.body_is_empty(&Body::Text("x".to_string())));
}

#[test]
fn json_is_shown_indented() {
    let mut inner = serde_json::Map::new();
    inner.insert("b".to_string(), Value::Number(Number::from(1)));
    let mut outer = serde_json::Map::new();
    outer.insert("a".to_string(), Value::Object(inner));
    outer.insert("z".to_string(), Value::String("t".to_string()));
    let lines = VerboseMiddleware.request_lines(&request(
        vec![entry("Accept", "application/json")],
        Body::Json(Value::Object(outer)),
    ));
    assert_eq!(
        lines,
        Ok(vec![
            "POST http://localhost:5000/signup".to_string(),
            "Headers:".to_string(),
            "Accept: application/json".to_string(),
            "Body:".to_string(),
            "{\n  \"a\": {\n    \"b\": 1\n  },\n  \"z\": \"t\"\n}".to_string(),
            "==========".to_string(),
        ])
    );
}

#[test]
fn an_empty_json_object_still_has_a_body() {
    let lines = VerboseMiddleware
        .request_lines(&request(Vec::new(), Body::Json(Value::Object(serde_json::Map::new()))))
        .unwrap();
    assert_eq!(lines[1], "Body:");
    assert_eq!(lines[2], "{}");
    assert_eq!(lines.len(), 4);
}

#[test]
fn body_line_summarises_each_kind() {
    assert_eq!(
        VerboseMiddleware.body_line(&Body::Bytes(vec![7; 3])),
        Some("<3 bytes>".to_string())
    );
    assert_eq!(
        VerboseMiddleware.body_line(&Body::Text("plain".to_string())),
        Some("plain".to_string())
    );
    assert_eq!(
        VerboseMiddleware.body_line(&Body::Json(Value::Bool(true))),
        Some("true".to_string())
    );
    assert_eq!(VerboseMiddleware.body_line(&Body::Empty), Some(String::new()));
}

#[test]
fn request_lines_never_fail_for_values_that_print() {
    let result: Result<Vec<String>, InputError> =
        VerboseMiddleware.request_lines(&request(Vec::new(), Body::Json(Value::Null)));
    assert_eq!(result.unwrap()[2], "null");
}

#[test]
fn a_response_shows_status_and_headers() {
    let outcome = Outcome::Response(ResponseHead {
        status: 200,
        status_line: "200 OK".to_string(),
        headers: vec![
            entry("content-type", "application/json"),
            entry("set-cookie", "a=1"),
            entry("set-cookie", "b=2"),
        ],
    });
    assert_eq!(
        VerboseMiddleware.outcome_lines(&outcome),
        vec![
            "200 OK",
            "Headers:",
            "content-type: application/json",
            "set-cookie: a=1",
            "set-cookie: b=2",
        ]
    );
}

#[test]
fn a_response_without_headers_shows_the_status_alone() {
    let outcome = Outcome::Response(ResponseHead {
        status: 404,
        status_line: "404 Not Found".to_string(),
        headers: Vec::new(),
    });
    assert_eq!(VerboseMiddleware.outcome_lines(&outcome), vec!["404 Not Found"]);
}

#[test]
fn a_failure_shows_the_error_and_stays_a_failure() {
    let outcome = Outcome::Failure("ConnectionError(refused)".to_string());
    assert_eq!(
        VerboseMiddleware.outcome_lines(&outcome),
        vec!["ConnectionError(refused)"]
    );
    assert_eq!(
        outcome,
        Outcome::Failure("ConnectionError(refused)".to_string())
    );
}

#[test]
fn tracing_leaves_the_request_as_it_was() {
    let traced = request(
        vec![entry("A", "1")],
        Body::Text("payload".to_string()),
    );
    let _ = VerboseMiddleware.request_lines(&traced);
    assert_eq!(
        traced,
        request(vec![entry("A", "1")], Body::Text("payload".to_string()))
    );
}

#[test]
fn the_traced_url_is_the_normalized_one() {
    let built = req::request::build_request(req::request::RequestInput {
        url: "httpbin.org/get".to_string(),
        params: Vec::new(),
        method: None,
        header_flags: req::headers::HeaderFlags {
            explicit: Vec::new(),
            bearer: None,
            token: None,
            user: None,
            cookies: Vec::new(),
        },
        json: None,
        form: None,
        file: None,
    })
    .unwrap();
    assert_eq!(
        VerboseMiddleware.request_lines(&built),
        Ok(vec![
            "GET http://httpbin.org/get".to_string(),
            "==========".to_string(),
        ])
    );
}
