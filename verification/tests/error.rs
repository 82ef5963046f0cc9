use req::error::{InputError, INPUT_ERROR_EXIT_CODE};

#[test]
fn messages_end_with_the_offending_token() {
    assert_eq!(
        InputError::MalformedPair("oops".to_string()).message(),
        "Expected key=value or key:value with non-empty key segments, got: oops"
    );
    assert_eq!(
        InputError::ConflictingKeyPath("a.b=1".to_string()).message(),
        "Key path descends into a value that is not an object: a.b=1"
    );
    assert_eq!(
        InputError::MissingFileName("http://x/".to_string()).message(),
        "URL path has no final segment to name the file after: http://x/"
    );
    assert_eq!(
        InputError::UnencodableBody.message(),
        "Body cannot be encoded."
    );
}

#[test]
fn an_invalid_method_names_the_allowed_set() {
    assert_eq!(
        InputError::InvalidMethod("brew".to_string()).message(),
        "Method must be one of: GET, POST, PUT, DELETE, PATCH, HEAD, OPTIONS, TRACE, CONNECT. Got: brew"
    );
}

#[test]
fn input_errors_exit_nonzero() {
    assert_eq!(InputError::UnencodableBody.exit_code(), INPUT_ERROR_EXIT_CODE);
    assert_eq!(InputError::MalformedPair(String::new()).exit_code(), 2);
    assert_ne!(InputError::InvalidMethod("x".to_string()).exit_code(), 0);
}
