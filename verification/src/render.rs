//! Deciding what to do with a response: print its body, plain or
//! pretty-printed, or save it to a file; and with which status the
//! process ends.

use vstd::prelude::*;
use vstd::string::*;
use crate::error::InputError;
use crate::headers::{header_views, HeaderEntry};
use crate::middleware::ResponseHead;
use crate::text::{
    has_prefix, lowercased, same_text, segments, split_segments, starts_with, string_views,
    to_lowercase,
};

verus! {

/// The flags that steer rendering.
#[derive(Clone, Copy, Debug, PartialEq, Eq, Structural)]
pub struct RenderFlags {
    /// Do not fail on a status outside 2xx.
    pub ignore_status: bool,
    /// Save the body to a file named after the URL.
    pub remote_name: bool,
    /// Do not pretty-print.
    pub raw: bool,
}

/// What to do with the body of a response.
#[derive(Debug, PartialEq, Eq)]
pub enum Rendering {
    /// Write the body to standard output, pretty-printed as JSON if
    /// `pretty` is set, verbatim otherwise.
    Print { body: Vec<u8>, pretty: bool },
    /// Write the body, byte for byte, to the file `file_name` in the
    /// working directory.
    Save { file_name: String, body: Vec<u8> },
}

/// A rendering and the exit status of the process.
#[derive(Debug, PartialEq, Eq)]
pub struct RenderPlan {
    pub rendering: Rendering,
    pub exit_code: i32,
}

/// A rendering as contracts see it.
pub enum RenderingModel {
    Print { body: Seq<u8>, pretty: bool },
    Save { file_name: Seq<char>, body: Seq<u8> },
}

impl View for RenderPlan {
    type V = (RenderingModel, int);

    open spec fn view(&self) -> (RenderingModel, int) {
        (
            match self.rendering {
                Rendering::Print { body, pretty } => RenderingModel::Print { body: body@, pretty },
                Rendering::Save { file_name, body } => RenderingModel::Save {
                    file_name: file_name@,
                    body: body@,
                },
            },
            self.exit_code as int,
        )
    }
}

/// What `http::Uri` reads as the path of a URL, or `None` where it
/// rejects the URL.
pub uninterp spec fn uri_path(url: Seq<char>) -> Option<Seq<char>>;

/// `str::parse::<httpclient::Uri>` followed by `Uri::path`: the path
/// component of `url`. The result depends on the URL alone.
#[verifier::external_body]
pub(crate) fn url_path(url: &str) -> (path: Option<String>)
    ensures
        match path {
            Some(p) => uri_path(url@) == Some(p@),
            None => uri_path(url@) is None,
        },
{
    match url.parse::<httpclient::Uri>() {
        Ok(uri) => Some(uri.path().to_owned()),
        Err(_) => None,
    }
}

/// A status in the range 200 to 299.
pub open spec fn is_success(status: u16) -> bool {
    200 <= status < 300
}

/// Whether a header is named `Content-Type`, whatever the case of its
/// letters.
pub open spec fn names_content_type(header: (Seq<char>, Seq<char>)) -> bool {
    lowercased(header.0) == "content-type"@
}

/// The value of the first header named `Content-Type`, if there is one.
pub open spec fn content_type_of(headers: Seq<(Seq<char>, Seq<char>)>) -> Option<Seq<char>>
    decreases headers.len(),
{
    if headers.len() == 0 {
        None
    } else if names_content_type(headers[0]) {
        Some(headers[0].1)
    } else {
        content_type_of(headers.drop_first())
    }
}

/// Whether the headers announce JSON: the content type begins with
/// `application/json`.
pub open spec fn announces_json(headers: Seq<(Seq<char>, Seq<char>)>) -> bool {
    match content_type_of(headers) {
        Some(value) => has_prefix(value, "application/json"@),
        None => false,
    }
}

/// The part of a path after its last `/`.
pub open spec fn last_segment(path: Seq<char>) -> Seq<char> {
    segments(path, '/').last()
}

/// The file name that a path gives: its last segment, unless that is
/// empty.
pub open spec fn file_name_in(path: Seq<char>) -> Option<Seq<char>> {
    if last_segment(path).len() > 0 {
        Some(last_segment(path))
    } else {
        None
    }
}

/// The file name that a URL gives: the last segment of its path. `None`
/// where the URL has no path or the path ends in `/`.
pub open spec fn file_name_of(url: Seq<char>) -> Option<Seq<char>> {
    match uri_path(url) {
        Some(path) => file_name_in(path),
        None => None,
    }
}

/// Whether the process is to fail on this status.
pub open spec fn fails_on(status: u16, flags: RenderFlags) -> bool {
    !flags.ignore_status && !is_success(status)
}

/// What is printed for a response: its body, pretty when the headers
/// announce JSON and raw output was not asked for.
pub open spec fn printed(
    headers: Seq<(Seq<char>, Seq<char>)>,
    body: Seq<u8>,
    flags: RenderFlags,
) -> RenderingModel {
    RenderingModel::Print { body, pretty: !flags.raw && announces_json(headers) }
}

/// What is owed for a response: the rendering with the exit status, or
/// `None` where the body is to be saved and the URL gives no file name.
///
/// A status outside 2xx that is not ignored always prints the body and
/// ends with status 1, whatever else was asked for. Otherwise the body
/// is saved if that was asked for, and printed if not; the process ends
/// with status 0. Printing is pretty when the headers announce JSON and
/// raw output was not asked for.
pub open spec fn planned(
    status: u16,
    headers: Seq<(Seq<char>, Seq<char>)>,
    body: Seq<u8>,
    flags: RenderFlags,
    url: Seq<char>,
) -> Option<(RenderingModel, int)> {
    if fails_on(status, flags) {
        Some((printed(headers, body, flags), 1))
    } else if flags.remote_name {
        match file_name_of(url) {
            Some(file_name) => Some((RenderingModel::Save { file_name, body }, 0)),
            None => None,
        }
    } else {
        Some((printed(headers, body, flags), 0))
    }
}

/// The value of the first `Content-Type` header, if there is one.
pub fn content_type(headers: &Vec<HeaderEntry>) -> (value: Option<&str>)
    ensures
        match content_type_of(header_views(headers@)) {
            Some(v) => value matches Some(got) && got@ == v,
            None => value is None,
        },
{
    let mut i: usize = 0;
    assert(header_views(headers@).skip(0) =~= header_views(headers@));
    while i < headers.len()
        invariant
            i <= headers.len(),
            content_type_of(header_views(headers@)) == content_type_of(
                header_views(headers@).skip(i as int),
            ),
        decreases headers.len() - i,
    {
        let ghost rest = header_views(headers@).skip(i as int);
        assert(rest[0] == headers@[i as int]@);
        assert(rest.drop_first() =~= header_views(headers@).skip(i + 1));
        let lower = to_lowercase(headers[i].name.as_str());
        if same_text(lower.as_str(), "content-type") {
            return Some(headers[i].value.as_str());
        }
        i += 1;
    }
    None
}

/// Whether body text is to be pretty-printed as JSON.
pub fn wants_pretty(headers: &Vec<HeaderEntry>, raw: bool) -> (pretty: bool)
    ensures
        pretty == (!raw && announces_json(header_views(headers@))),
{
    if raw {
        return false;
    }
    match content_type(headers) {
        Some(value) => starts_with(value, "application/json"),
        None => false,
    }
}

/// The file name that a URL path gives: what follows its last `/`, or
/// `None` when nothing follows it.
pub fn file_name_from_path(path: &str) -> (name: Option<String>)
    ensures
        match file_name_in(path@) {
            Some(n) => name matches Some(got) && got@ == n,
            None => name is None,
        },
{
    let mut pieces = split_segments(path, '/');
    assert(pieces@.len() > 0) by {
        reveal_with_fuel(segments, 1);
    }
    let ghost all = string_views(pieces@);
    match pieces.pop() {
        Some(last) => {
            assert(last@ == all.last());
            if last.as_str().unicode_len() > 0 {
                Some(last)
            } else {
                None
            }
        },
        None => None,
    }
}

/// Decides what to do with a response.
///
/// When the status is outside 2xx and that is not ignored, the body is
/// printed and the process ends with status 1: this comes before any
/// saving. Otherwise, when saving was asked for, the body is saved under
/// the last path segment of `url`, and a URL whose path has no last
/// segment is an error that reports the URL. Otherwise the body is
/// printed. Printing is pretty when the `Content-Type` begins with
/// `application/json` and raw output was not asked for. The body is
/// handed back as it was received.
pub fn plan_render(
    head: &ResponseHead,
    body: Vec<u8>,
    flags: RenderFlags,
    url: &str,
) -> (plan: Result<RenderPlan, InputError>)
    ensures
        match planned(head.status, header_views(head.headers@), body@, flags, url@) {
            Some(p) => plan matches Ok(got) && got@ == p,
            None => plan matches Err(e) && e.is_missing_file_name(url@),
        },
{
    if !flags.ignore_status && !(200 <= head.status && head.status < 300) {
        let pretty = wants_pretty(&head.headers, flags.raw);
        return Ok(RenderPlan { rendering: Rendering::Print { body, pretty }, exit_code: 1 });
    }
    if flags.remote_name {
        let name = match url_path(url) {
            Some(path) => file_name_from_path(path.as_str()),
            None => None,
        };
        match name {
            Some(file_name) => Ok(
                RenderPlan { rendering: Rendering::Save { file_name, body }, exit_code: 0 },
            ),
            None => Err(InputError::MissingFileName(String::from_str(url))),
        }
    } else {
        let pretty = wants_pretty(&head.headers, flags.raw);
        Ok(RenderPlan { rendering: Rendering::Print { body, pretty }, exit_code: 0 })
    }
}

/// A status outside 2xx prints the body and ends with status 1; with the
/// status ignored the same is printed and the process ends with status
/// 0. Saving is not asked for here; where it is, an ignored failure is
/// saved, not printed.
pub proof fn lemma_ignore_status_keeps_output(
    status: u16,
    headers: Seq<(Seq<char>, Seq<char>)>,
    body: Seq<u8>,
    flags: RenderFlags,
    url: Seq<char>,
)
    requires
        !is_success(status),
        !flags.remote_name,
    ensures
        planned(status, headers, body, (RenderFlags { ignore_status: false, ..flags }), url)
            == Some((printed(headers, body, flags), 1int)),
        planned(status, headers, body, (RenderFlags { ignore_status: true, ..flags }), url)
            == Some((printed(headers, body, flags), 0int)),
{
}

/// A failing status is reported before anything is saved: whatever else
/// was asked for, the body is printed and the exit status is 1.
pub proof fn lemma_failure_comes_first(
    status: u16,
    headers: Seq<(Seq<char>, Seq<char>)>,
    body: Seq<u8>,
    flags: RenderFlags,
    url: Seq<char>,
)
    requires
        !is_success(status),
        !flags.ignore_status,
    ensures
        planned(status, headers, body, flags, url) == Some((printed(headers, body, flags), 1int)),
{
}

/// What is saved is what was received, under the last path segment of
/// the URL; and nothing is saved where the URL gives no file name.
pub proof fn lemma_saved_as_received(
    status: u16,
    headers: Seq<(Seq<char>, Seq<char>)>,
    body: Seq<u8>,
    flags: RenderFlags,
    url: Seq<char>,
)
    requires
        flags.remote_name,
        !fails_on(status, flags),
    ensures
        match uri_path(url) {
            Some(path) => if last_segment(path).len() > 0 {
                planned(status, headers, body, flags, url) == Some(
                    (RenderingModel::Save { file_name: last_segment(path), body }, 0int),
                )
            } else {
                planned(status, headers, body, flags, url) is None
            },
            None => planned(status, headers, body, flags, url) is None,
        },
{
}

} // verus!
