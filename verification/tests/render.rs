use req::error::InputError;
use req::headers::HeaderEntry;
use req::middleware::ResponseHead;
use req::render::{
    content_type, file_name_from_path, plan_render, wants_pretty, RenderFlags, RenderPlan,
    Rendering,
};

fn entry(name: &str, value: &str) -> HeaderEntry {
    HeaderEntry {
        name: name.to_string(),
        value: value.to_string(),
    }
}

fn head(status: u16, headers: Vec<HeaderEntry>) -> ResponseHead {
    ResponseHead {
        status,
        status_line: status.to_string(),
        headers,
    }
}

fn flags(ignore_status: bool, remote_name: bool, raw: bool) -> RenderFlags {
    RenderFlags {
        ignore_status,
        remote_name,
        raw,
    }
}

fn json_headers() -> Vec<HeaderEntry> {
    vec![
        entry("server", "x"),
        entry("Content-Type", "application/json; charset=utf-8"),
    ]
}

#[test]
fn a_success_is_printed_and_exits_zero() {
    let plan = plan_render(
        &head(200, Vec::new()),
        b"hello".to_vec(),
        flags(false, false, false),
        "http://example.com/",
    );
    assert_eq!(
        plan,
        Ok(RenderPlan {
            rendering: Rendering::Print {
                body: b"hello".to_vec(),
                pretty: false
            },
            exit_code: 0,
        })
    );
}

#[test]
fn json_is_pretty_unless_raw() {
    let pretty = plan_render(
        &head(200, json_headers()),
        b"{}".to_vec(),
        flags(false, false, false),
        "http://example.com/",
    );
    assert_eq!(
        pretty,
        Ok(RenderPlan {
            rendering: Rendering::Print {
                body: b"{}".to_vec(),
                pretty: true
            },
            exit_code: 0,
        })
    );
    let raw = plan_render(
        &head(200, json_headers()),
        b"{}".to_vec(),
        flags(false, false, true),
        "http://example.com/",
    );
    assert_eq!(
        raw,
        Ok(RenderPlan {
            rendering: Rendering::Print {
                body: b"{}".to_vec(),
                pretty: false
            },
            exit_code: 0,
        })
    );
}

#[test]
fn a_failing_status_prints_and_exits_one() {
    for status in [100, 199, 300, 301, 404, 500, 599] {
        let plan = plan_render(
            &head(status, json_headers()),
            b"{\"error\":1}".to_vec(),
            flags(false, false, false),
            "http://example.com/x",
        );
        assert_eq!(
            plan,
            Ok(RenderPlan {
                rendering: Rendering::Print {
                    body: b"{\"error\":1}".to_vec(),
                    pretty: true
                },
                exit_code: 1,
            })
        );
    }
}

#[test]
fn every_2xx_is_a_success() {
    for status in [200, 201, 204, 299] {
        let plan = plan_render(
            &head(status, Vec::new()),
            Vec::new(),
            flags(false, false, false),
            "http://example.com/x",
        )
        .unwrap();
        assert_eq!(plan.exit_code, 0);
    }
}

#[test]
fn ignoring_the_status_prints_the_same_and_exits_zero() {
    let failing = plan_render(
        &head(404, json_headers()),
        b"gone".to_vec(),
        flags(false, false, false),
        "http://example.com/x",
    )
    .unwrap();
    let ignored = plan_render(
        &head(404, json_headers()),
        b"gone".to_vec(),
        flags(true, false, false),
        "http://example.com/x",
    )
    .unwrap();
    assert_eq!(failing.exit_code, 1);
    assert_eq!(ignored.exit_code, 0);
    assert_eq!(failing.rendering, ignored.rendering);
    assert_eq!(
        ignored.rendering,
        Rendering::Print {
            body: b"gone".to_vec(),
            pretty: true
        }
    );
}

#[test]
fn a_failing_status_comes_before_saving() {
    let plan = plan_render(
        &head(500, Vec::new()),
        b"oops".to_vec(),
        flags(false, true, false),
        "http://example.com/",
    );
    assert_eq!(
        plan,
        Ok(RenderPlan {
            rendering: Rendering::Print {
                body: b"oops".to_vec(),
                pretty: false
            },
            exit_code: 1,
        })
    );
}

#[test]
fn saving_names_the_file_after_the_last_segment() {
    let bytes: Vec<u8> = vec![0, 159, 146, 150, 255];
    let plan = plan_render(
        &head(200, json_headers()),
        bytes.clone(),
        flags(false, true, false),
        "http://example.com/files/archive.tar.gz?download=1",
    );
    assert_eq!(
        plan,
        Ok(RenderPlan {
            rendering: Rendering::Save {
                file_name: "archive.tar.gz".to_string(),
                body: bytes,
            },
            exit_code: 0,
        })
    );
}

#[test]
fn saving_an_ignored_failure_saves() {
    let plan = plan_render(
        &head(404, Vec::new()),
        b"missing".to_vec(),
        flags(true, true, false),
        "http://example.com/a/b",
    );
    assert_eq!(
        plan,
        Ok(RenderPlan {
            rendering: Rendering::Save {
                file_name: "b".to_string(),
                body: b"missing".to_vec(),
            },
            exit_code: 0,
        })
    );
}

#[test]
fn saving_without_a_last_segment_is_an_error() {
    for url in [
        "http://example.com/",
        "http://example.com",
        "http://example.com/dir/",
        "http://exa mple.com/x",
        "",
    ] {
        assert_eq!(
            plan_render(&head(200, Vec::new()), Vec::new(), flags(false, true, false), url),
            Err(InputError::MissingFileName(url.to_string()))
        );
    }
}

#[test]
fn file_names_come_from_the_path() {
    assert_eq!(file_name_from_path("/a/b.txt"), Some("b.txt".to_string()));
    assert_eq!(file_name_from_path("/b"), Some("b".to_string()));
    assert_eq!(file_name_from_path("plain"), Some("plain".to_string()));
    assert_eq!(file_name_from_path("/a/"), None);
    assert_eq!(file_name_from_path("/"), None);
    assert_eq!(file_name_from_path(""), None);
}

#[test]
fn the_first_content_type_counts_in_any_case() {
    let headers = vec![
        entry("x", "y"),
        entry("CONTENT-TYPE", "text/html"),
        entry("content-type", "application/json"),
    ];
    assert_eq!(content_type(&headers), Some("text/html"));
    assert!(!wants_pretty(&headers, false));
    assert_eq!(content_type(&vec![entry("content-length", "3")]), None);
    assert_eq!(content_type(&Vec::new()), None);
}

#[test]
fn pretty_needs_the_json_prefix() {
    assert!(wants_pretty(&vec![entry("Content-Type", "application/json")], false));
    assert!(wants_pretty(&vec![entry("content-type", "application/json+ld")], false));
    assert!(!wants_pretty(&vec![entry("content-type", "application/json")], true));
    assert!(!wants_pretty(&vec![entry("content-type", "text/json")], false));
    assert!(!wants_pretty(&vec![entry("content-type", " application/json")], false));
    assert!(!wants_pretty(&Vec::new(), false));
}
