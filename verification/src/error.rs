//! Fatal input errors and their user-facing messages.

use vstd::prelude::*;
use vstd::string::*;

verus! {

/// An input that cannot be turned into a request or a rendering. Each
/// variant but the last carries the offending token.
#[derive(Debug, PartialEq, Eq)]
pub enum InputError {
    /// A `key=value` / `key:value` argument without a separator, or whose
    /// key has an empty path segment.
    MalformedPair(String),
    /// A dotted key that descends into a location already bound to a
    /// non-object value.
    ConflictingKeyPath(String),
    /// A method name outside the standard set.
    InvalidMethod(String),
    /// A URL whose path has no final segment to name a file after.
    MissingFileName(String),
    /// A body that has no form-urlencoded or pretty-printed rendering.
    UnencodableBody,
}

/// Exit status of a process that stops on an input error.
pub const INPUT_ERROR_EXIT_CODE: i32 = 2;

/// Text that precedes the offending token in an error message.
pub open spec fn message_prefix(e: InputError) -> Seq<char> {
    match e {
        InputError::MalformedPair(_) =>
            "Expected key=value or key:value with non-empty key segments, got: "@,
        InputError::ConflictingKeyPath(_) =>
            "Key path descends into a value that is not an object: "@,
        InputError::InvalidMethod(_) =>
            "Method must be one of: GET, POST, PUT, DELETE, PATCH, HEAD, OPTIONS, TRACE, CONNECT. Got: "@,
        InputError::MissingFileName(_) => "URL path has no final segment to name the file after: "@,
        InputError::UnencodableBody => "Body cannot be encoded."@,
    }
}

/// The token an error reports; empty for the variant without one.
pub open spec fn offending_token(e: InputError) -> Seq<char> {
    match e {
        InputError::MalformedPair(t) => t@,
        InputError::ConflictingKeyPath(t) => t@,
        InputError::InvalidMethod(t) => t@,
        InputError::MissingFileName(t) => t@,
        InputError::UnencodableBody => Seq::empty(),
    }
}

impl InputError {
    /// This error is a malformed pair reporting `token`.
    pub open spec fn is_malformed_pair(self, token: Seq<char>) -> bool {
        self matches InputError::MalformedPair(t) && t@ == token
    }

    /// This error is a key path conflict reporting `token`.
    pub open spec fn is_conflicting_key_path(self, token: Seq<char>) -> bool {
        self matches InputError::ConflictingKeyPath(t) && t@ == token
    }

    /// This error is an invalid method reporting `token`.
    pub open spec fn is_invalid_method(self, token: Seq<char>) -> bool {
        self matches InputError::InvalidMethod(t) && t@ == token
    }

    /// This error is a missing file name reporting `token`.
    pub open spec fn is_missing_file_name(self, token: Seq<char>) -> bool {
        self matches InputError::MissingFileName(t) && t@ == token
    }

    /// The message shown to the user: a fixed explanation followed by the
    /// offending token.
    pub fn message(&self) -> (text: String)
        ensures
            text@ == message_prefix(*self) + offending_token(*self),
    {
        match self {
            InputError::MalformedPair(t) => {
                String::from_str(
                    "Expected key=value or key:value with non-empty key segments, got: ",
                ).concat(t.as_str())
            },
            InputError::ConflictingKeyPath(t) => {
                String::from_str("Key path descends into a value that is not an object: ").concat(
                    t.as_str(),
                )
            },
            InputError::InvalidMethod(t) => {
                String::from_str(
                    "Method must be one of: GET, POST, PUT, DELETE, PATCH, HEAD, OPTIONS, TRACE, CONNECT. Got: ",
                ).concat(t.as_str())
            },
            InputError::MissingFileName(t) => {
                String::from_str("URL path has no final segment to name the file after: ").concat(
                    t.as_str(),
                )
            },
            InputError::UnencodableBody => {
                let text = String::from_str("Body cannot be encoded.");
                assert(text@ + Seq::<char>::empty() =~= text@);
                text
            },
        }
    }

    /// Exit status for a process that stops on this error: never zero.
    pub fn exit_code(&self) -> (code: i32)
        ensures
            code == INPUT_ERROR_EXIT_CODE,
            code != 0,
    {
        INPUT_ERROR_EXIT_CODE
    }
}

} // verus!
