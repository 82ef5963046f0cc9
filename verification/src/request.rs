//! Building the description of one request: normalized URL, method,
//! query parameters, headers and body.

use vstd::prelude::*;
use vstd::string::*;
use crate::error::InputError;
use crate::headers::{
    assemble_headers, assembled_headers, header, header_views, HeaderEntry, HeaderFlags,
};
use crate::json::{json_of, Json};
use crate::pairs::{first_malformed, pair_views, pairs_of, parse_pairs};
use crate::text::{
    decimal, decimal_digits, has_prefix, same_text, starts_with, str_views, string_views,
    to_uppercase, uppercased,
};
use crate::tree::{build_map, built_tree, lemma_failure_index, tree_of, BuildFailure};

verus! {

/// Whether a URL already names its scheme: it begins with `http://` or
/// with `https://`.
pub open spec fn has_scheme(url: Seq<char>) -> bool {
    has_prefix(url, "http://"@) || has_prefix(url, "https://"@)
}

/// The absolute URL that a terse one stands for. A URL that names its
/// scheme is kept; one that begins with `:` gets the host `localhost` put
/// before the colon; and every URL without a scheme gets `http://` put in
/// front.
pub open spec fn normalized_url(url: Seq<char>) -> Seq<char> {
    if has_scheme(url) {
        url
    } else if has_prefix(url, ":"@) {
        "http://"@ + ("localhost"@ + url)
    } else {
        "http://"@ + url
    }
}

/// Normalizes a URL typed on the command line: `:5000/path` becomes
/// `http://localhost:5000/path`, `example.com` becomes
/// `http://example.com`, and a URL that begins with `http://` or
/// `https://` is returned as it is. Every URL is accepted, and the result
/// always names its scheme.
pub fn normalize_url(url: &str) -> (normal: String)
    ensures
        normal@ == normalized_url(url@),
        has_scheme(normal@),
{
    proof {
        lemma_normalize_idempotent(url@);
    }
    if starts_with(url, "http://") || starts_with(url, "https://") {
        String::from_str(url)
    } else if starts_with(url, ":") {
        let host = String::from_str("localhost").concat(url);
        String::from_str("http://").concat(host.as_str())
    } else {
        String::from_str("http://").concat(url)
    }
}

/// Every normalized URL names its scheme, so normalizing is idempotent:
/// normalizing a normalized URL changes nothing.
pub proof fn lemma_normalize_idempotent(url: Seq<char>)
    ensures
        has_scheme(normalized_url(url)),
        normalized_url(normalized_url(url)) == normalized_url(url),
{
    if !has_scheme(url) {
        let normal = normalized_url(url);
        let scheme = "http://"@;
        if has_prefix(url, ":"@) {
            assert(normal.take(scheme.len() as int) =~= scheme);
        } else {
            assert(normal.take(scheme.len() as int) =~= scheme);
        }
        assert(has_prefix(normal, scheme));
    }
}

/// The standard request methods.
#[derive(Clone, Copy, Debug, PartialEq, Eq, Structural)]
pub enum Method {
    Get,
    Post,
    Put,
    Delete,
    Patch,
    Head,
    Options,
    Trace,
    Connect,
}

impl Method {
    /// The name of the method as it is written on the wire.
    pub open spec fn name(self) -> Seq<char> {
        match self {
            Method::Get => "GET"@,
            Method::Post => "POST"@,
            Method::Put => "PUT"@,
            Method::Delete => "DELETE"@,
            Method::Patch => "PATCH"@,
            Method::Head => "HEAD"@,
            Method::Options => "OPTIONS"@,
            Method::Trace => "TRACE"@,
            Method::Connect => "CONNECT"@,
        }
    }

    /// The name of the method as it is written on the wire.
    pub fn as_str(&self) -> (name: &'static str)
        ensures
            name@ == self.name(),
    {
        match self {
            Method::Get => "GET",
            Method::Post => "POST",
            Method::Put => "PUT",
            Method::Delete => "DELETE",
            Method::Patch => "PATCH",
            Method::Head => "HEAD",
            Method::Options => "OPTIONS",
            Method::Trace => "TRACE",
            Method::Connect => "CONNECT",
        }
    }
}

/// The standard method with the given upper-case name, if there is one.
pub open spec fn method_named(upper: Seq<char>) -> Option<Method> {
    if upper == "GET"@ {
        Some(Method::Get)
    } else if upper == "POST"@ {
        Some(Method::Post)
    } else if upper == "PUT"@ {
        Some(Method::Put)
    } else if upper == "DELETE"@ {
        Some(Method::Delete)
    } else if upper == "PATCH"@ {
        Some(Method::Patch)
    } else if upper == "HEAD"@ {
        Some(Method::Head)
    } else if upper == "OPTIONS"@ {
        Some(Method::Options)
    } else if upper == "TRACE"@ {
        Some(Method::Trace)
    } else if upper == "CONNECT"@ {
        Some(Method::Connect)
    } else {
        None
    }
}

/// The method of a request: the explicit one, read without regard to
/// case; without an explicit one, `POST` when a JSON or form body was
/// asked for and `GET` otherwise. `None` when the explicit name is not a
/// standard method.
pub open spec fn inferred_method(
    explicit: Option<Seq<char>>,
    has_json: bool,
    has_form: bool,
) -> Option<Method> {
    match explicit {
        Some(name) => method_named(uppercased(name)),
        None => if has_json || has_form {
            Some(Method::Post)
        } else {
            Some(Method::Get)
        },
    }
}

/// The view of an optional string.
pub open spec fn optional_text(text: Option<&str>) -> Option<Seq<char>> {
    match text {
        Some(t) => Some(t@),
        None => None,
    }
}

/// Looks up a standard method by its upper-case name.
pub fn method_from_upper(upper: &str) -> (method: Option<Method>)
    ensures
        method == method_named(upper@),
{
    if same_text(upper, "GET") {
        Some(Method::Get)
    } else if same_text(upper, "POST") {
        Some(Method::Post)
    } else if same_text(upper, "PUT") {
        Some(Method::Put)
    } else if same_text(upper, "DELETE") {
        Some(Method::Delete)
    } else if same_text(upper, "PATCH") {
        Some(Method::Patch)
    } else if same_text(upper, "HEAD") {
        Some(Method::Head)
    } else if same_text(upper, "OPTIONS") {
        Some(Method::Options)
    } else if same_text(upper, "TRACE") {
        Some(Method::Trace)
    } else if same_text(upper, "CONNECT") {
        Some(Method::Connect)
    } else {
        None
    }
}

/// Every method is found again by its own name.
pub proof fn lemma_method_by_name(m: Method)
    ensures
        method_named(m.name()) == Some(m),
{
    reveal_strlit("GET");
    reveal_strlit("POST");
    reveal_strlit("PUT");
    reveal_strlit("DELETE");
    reveal_strlit("PATCH");
    reveal_strlit("HEAD");
    reveal_strlit("OPTIONS");
    reveal_strlit("TRACE");
    reveal_strlit("CONNECT");
    match m {
        Method::Get => {},
        Method::Post => {
            assert("POST"@[0] != "GET"@[0]);
        },
        Method::Put => {
            assert("PUT"@[0] != "GET"@[0]);
            assert("PUT"@[1] != "POST"@[1]);
        },
        Method::Delete => {
            assert("DELETE"@[0] != "GET"@[0]);
            assert("DELETE"@[0] != "POST"@[0]);
            assert("DELETE"@[0] != "PUT"@[0]);
        },
        Method::Patch => {
            assert("PATCH"@[0] != "GET"@[0]);
            assert("PATCH"@[1] != "POST"@[1]);
            assert("PATCH"@[1] != "PUT"@[1]);
            assert("PATCH"@[0] != "DELETE"@[0]);
        },
        Method::Head => {
            assert("HEAD"@[0] != "GET"@[0]);
            assert("HEAD"@[0] != "POST"@[0]);
            assert("HEAD"@[0] != "PUT"@[0]);
            assert("HEAD"@[0] != "DELETE"@[0]);
            assert("HEAD"@[0] != "PATCH"@[0]);
        },
        Method::Options => {
            assert("OPTIONS"@[0] != "GET"@[0]);
            assert("OPTIONS"@[0] != "POST"@[0]);
            assert("OPTIONS"@[0] != "PUT"@[0]);
            assert("OPTIONS"@[0] != "DELETE"@[0]);
            assert("OPTIONS"@[0] != "PATCH"@[0]);
            assert("OPTIONS"@[0] != "HEAD"@[0]);
        },
        Method::Trace => {
            assert("TRACE"@[0] != "GET"@[0]);
            assert("TRACE"@[0] != "POST"@[0]);
            assert("TRACE"@[0] != "PUT"@[0]);
            assert("TRACE"@[0] != "DELETE"@[0]);
            assert("TRACE"@[0] != "PATCH"@[0]);
            assert("TRACE"@[0] != "HEAD"@[0]);
            assert("TRACE"@[0] != "OPTIONS"@[0]);
        },
        Method::Connect => {
            assert("CONNECT"@[0] != "GET"@[0]);
            assert("CONNECT"@[0] != "POST"@[0]);
            assert("CONNECT"@[0] != "PUT"@[0]);
            assert("CONNECT"@[0] != "DELETE"@[0]);
            assert("CONNECT"@[0] != "PATCH"@[0]);
            assert("CONNECT"@[0] != "HEAD"@[0]);
            assert("CONNECT"@[0] != "OPTIONS"@[0]);
            assert("CONNECT"@[0] != "TRACE"@[0]);
        },
    }
}

/// Chooses the method of a request. An explicit name is upper-cased and
/// must then be one of `GET`, `POST`, `PUT`, `DELETE`, `PATCH`, `HEAD`,
/// `OPTIONS`, `TRACE`, `CONNECT`; any other name is an error that reports
/// it. Without an explicit name the method is `POST` when a JSON or form
/// body was asked for, and `GET` otherwise.
pub fn infer_method(explicit: Option<&str>, has_json: bool, has_form: bool) -> (chosen: Result<
    Method,
    InputError,
>)
    ensures
        match inferred_method(optional_text(explicit), has_json, has_form) {
            Some(m) => chosen matches Ok(got) && got == m,
            None => chosen matches Err(e) && e.is_invalid_method(explicit.unwrap()@),
        },
        explicit is None && (has_json || has_form) ==> (chosen matches Ok(got) && got
            == Method::Post),
        explicit is None && !has_json && !has_form ==> (chosen matches Ok(got) && got
            == Method::Get),
{
    match explicit {
        Some(name) => {
            let upper = to_uppercase(name);
            match method_from_upper(upper.as_str()) {
                Some(m) => Ok(m),
                None => Err(InputError::InvalidMethod(String::from_str(name))),
            }
        },
        None => {
            if has_json || has_form {
                Ok(Method::Post)
            } else {
                Ok(Method::Get)
            }
        },
    }
}

/// The body of a request.
#[derive(Debug, PartialEq, Eq)]
pub enum Body {
    Empty,
    Bytes(Vec<u8>),
    Text(String),
    Json(serde_json::Value),
}

/// A body as contracts see it.
pub enum BodyModel {
    Empty,
    Bytes(Seq<u8>),
    Text(Seq<char>),
    Json(Json),
}

impl View for Body {
    type V = BodyModel;

    open spec fn view(&self) -> BodyModel {
        match self {
            Body::Empty => BodyModel::Empty,
            Body::Bytes(b) => BodyModel::Bytes(b@),
            Body::Text(t) => BodyModel::Text(t@),
            Body::Json(v) => BodyModel::Json(json_of(*v)),
        }
    }
}

/// One request, ready to be sent: an absolute URL, a method, the query
/// parameters and headers in the order they are to be added, and a body.
#[derive(Debug, PartialEq, Eq)]
pub struct RequestDescriptor {
    pub url: String,
    pub method: Method,
    pub query: Vec<(String, String)>,
    pub headers: Vec<HeaderEntry>,
    pub body: Body,
}

/// A request as contracts see it.
pub struct RequestModel {
    pub url: Seq<char>,
    pub method: Method,
    pub query: Seq<(Seq<char>, Seq<char>)>,
    pub headers: Seq<(Seq<char>, Seq<char>)>,
    pub body: BodyModel,
}

impl View for RequestDescriptor {
    type V = RequestModel;

    open spec fn view(&self) -> RequestModel {
        RequestModel {
            url: self.url@,
            method: self.method,
            query: pair_views(self.query@),
            headers: header_views(self.headers@),
            body: self.body@,
        }
    }
}

/// A file to send as the body: the path it was named by and what was
/// read from it.
#[derive(Debug, PartialEq, Eq)]
pub struct FileBody {
    pub path: String,
    pub contents: Vec<u8>,
}

/// What the command line says about one request.
#[derive(Debug, PartialEq, Eq)]
pub struct RequestInput {
    /// The URL as typed.
    pub url: String,
    /// Positional `key=value` arguments: the query parameters.
    pub params: Vec<String>,
    /// The explicit method, if any.
    pub method: Option<String>,
    /// The flags that contribute headers.
    pub header_flags: HeaderFlags,
    /// The pairs of a JSON body, if one was asked for.
    pub json: Option<Vec<String>>,
    /// The pairs of a form body, if one was asked for.
    pub form: Option<Vec<String>>,
    /// The file to send as the body, if any.
    pub file: Option<FileBody>,
}

/// What `serde_urlencoded::to_string` writes for a value, or `None` where
/// it reports an error.
pub uninterp spec fn form_text(v: Json) -> Option<Seq<char>>;

/// The media type that `mime_guess` guesses for a path, with
/// `application/octet-stream` where it has no guess.
pub uninterp spec fn guessed_type(path: Seq<char>) -> Seq<char>;

/// `serde_urlencoded::to_string`: `value` as form-urlencoded text. The
/// result depends on the value alone: an object is written in the order
/// of its keys, as `serde_json` keeps it when built without
/// `preserve_order`.
#[verifier::external_body]
pub(crate) fn form_encode(value: &serde_json::Value) -> (text: Option<String>)
    ensures
        match text {
            Some(t) => form_text(json_of(*value)) == Some(t@),
            None => form_text(json_of(*value)) is None,
        },
{
    serde_urlencoded::to_string(value).ok()
}

/// `mime_guess::from_path(path).first_or_octet_stream()`, as text: the
/// media type guessed from the extension of `path`, with
/// `application/octet-stream` where the extension is unknown or missing.
/// No file is touched; the result depends on the path alone, read by
/// the path rules of the platform the program is built for.
#[verifier::external_body]
pub(crate) fn guess_content_type(path: &str) -> (media_type: String)
    ensures
        media_type@ == guessed_type(path@),
{
    mime_guess::from_path(path).first_or_octet_stream().as_ref().to_owned()
}

/// The given strings as string slices.
pub fn as_strs<'a>(items: &'a Vec<String>) -> (slices: Vec<&'a str>)
    ensures
        str_views(slices@) == string_views(items@),
{
    let mut slices: Vec<&'a str> = Vec::new();
    let mut i: usize = 0;
    while i < items.len()
        invariant
            i <= items.len(),
            str_views(slices@) == string_views(items@).take(i as int),
        decreases items.len() - i,
    {
        let ghost before = str_views(slices@);
        slices.push(items[i].as_str());
        proof {
            assert(before.len() == i);
            assert(str_views(slices@) =~= string_views(items@).take(i + 1));
        }
        i += 1;
    }
    assert(string_views(items@).take(i as int) =~= string_views(items@));
    slices
}

/// The views of optional raw pairs, empty where there are none.
pub open spec fn raw_views(raws: Option<Vec<String>>) -> Seq<Seq<char>> {
    match raws {
        Some(v) => string_views(v@),
        None => Seq::empty(),
    }
}

/// The view of an optional owned string.
pub open spec fn optional_string(text: Option<String>) -> Option<Seq<char>> {
    match text {
        Some(t) => Some(t@),
        None => None,
    }
}

impl RequestInput {
    /// Every query parameter has a separator.
    pub open spec fn params_ok(self) -> bool {
        first_malformed(string_views(self.params@)) == self.params@.len()
    }

    /// Every explicit header has a separator.
    pub open spec fn headers_ok(self) -> bool {
        first_malformed(string_views(self.header_flags.explicit@))
            == self.header_flags.explicit@.len()
    }

    /// The method this input asks for, if it is a standard one.
    pub open spec fn chosen_method(self) -> Option<Method> {
        inferred_method(optional_string(self.method), self.json is Some, self.form is Some)
    }

    /// The pairs of the JSON body build an object.
    pub open spec fn json_ok(self) -> bool {
        tree_of(raw_views(self.json)) is Ok
    }

    /// The pairs of the form body build an object.
    pub open spec fn form_tree_ok(self) -> bool {
        tree_of(raw_views(self.form)) is Ok
    }

    /// The object built from the form pairs, form-urlencoded.
    pub open spec fn form_body(self) -> Option<Seq<char>> {
        form_text(Json::Object(built_tree(raw_views(self.form))))
    }

    /// The form body, if one was asked for, can be built and encoded.
    pub open spec fn form_ok(self) -> bool {
        self.form is Some ==> self.form_tree_ok() && self.form_body() is Some
    }

    /// Whether a request can be built from this input.
    pub open spec fn buildable(self) -> bool {
        self.params_ok() && self.headers_ok() && self.chosen_method() is Some && self.json_ok()
            && self.form_ok()
    }

    /// The headers that a file body brings: its length in bytes and the
    /// media type guessed from its name.
    pub open spec fn file_headers(self) -> Seq<(Seq<char>, Seq<char>)> {
        match self.file {
            Some(f) => seq![
                ("Content-Length"@, decimal_digits(f.contents@.len())),
                ("Content-Type"@, guessed_type(f.path@)),
            ],
            None => Seq::empty(),
        }
    }

    /// The one body that is attached: the file if there is one, else the
    /// form, else the JSON object, else nothing.
    pub open spec fn chosen_body(self) -> BodyModel {
        match self.file {
            Some(f) => BodyModel::Bytes(f.contents@),
            None => if self.form is Some {
                BodyModel::Text(self.form_body().unwrap())
            } else if self.json is Some {
                BodyModel::Json(Json::Object(built_tree(raw_views(self.json))))
            } else {
                BodyModel::Empty
            },
        }
    }

    /// The request that a buildable input describes.
    pub open spec fn request(self) -> RequestModel {
        RequestModel {
            url: normalized_url(self.url@),
            method: self.chosen_method().unwrap(),
            query: pairs_of(string_views(self.params@)),
            headers: self.file_headers() + assembled_headers(
                self.header_flags,
                self.json is Some,
                self.form is Some,
            ),
            body: self.chosen_body(),
        }
    }

    /// Whether `e` is the error owed for an input that is not buildable:
    /// the first thing wrong, looking at the query parameters, then the
    /// explicit headers, then the method, then the JSON pairs, then the
    /// form pairs, then the encoding of the form.
    pub open spec fn reports(self, e: InputError) -> bool {
        if !self.params_ok() {
            e.is_malformed_pair(self.params@[first_malformed(string_views(self.params@))]@)
        } else if !self.headers_ok() {
            e.is_malformed_pair(
                self.header_flags.explicit@[first_malformed(
                    string_views(self.header_flags.explicit@),
                )]@,
            )
        } else if self.chosen_method() is None {
            e.is_invalid_method(self.method.unwrap()@)
        } else if !self.json_ok() {
            reports_pair(raw_views(self.json), e)
        } else if !self.form_tree_ok() {
            reports_pair(raw_views(self.form), e)
        } else {
            e is UnencodableBody
        }
    }
}

/// Whether `e` reports the first pair of `raws` that cannot be added to
/// the tree, with the reason.
pub open spec fn reports_pair(raws: Seq<Seq<char>>, e: InputError) -> bool {
    match tree_of(raws) {
        Ok(_) => false,
        Err((i, BuildFailure::Malformed)) => e.is_malformed_pair(raws[i]),
        Err((i, BuildFailure::Conflict)) => e.is_conflicting_key_path(raws[i]),
    }
}

/// Builds the nested object of optional raw pairs: the empty object where
/// there are none.
fn build_tree(raws: &Option<Vec<String>>) -> (built: Result<serde_json::Value, InputError>)
    ensures
        match built {
            Ok(v) => tree_of(raw_views(*raws)) is Ok && json_of(v) == Json::Object(
                built_tree(raw_views(*raws)),
            ),
            Err(e) => reports_pair(raw_views(*raws), e),
        },
{
    match raws {
        Some(items) => {
            let slices = as_strs(items);
            let values = slices.as_slice();
            assert(str_views(values@) == raw_views(*raws));
            proof {
                lemma_failure_index(raw_views(*raws));
            }
            build_map(values)
        },
        None => {
            let none: Vec<&str> = Vec::new();
            let values = none.as_slice();
            assert(str_views(values@) =~= raw_views(*raws));
            build_map(values)
        },
    }
}

/// Builds the description of one request.
///
/// The URL is normalized. Each positional argument becomes one query
/// parameter, duplicates kept. The headers are those a file body brings
/// (`Content-Length`, `Content-Type`) followed by the assembled header
/// list. The method is the explicit one or the inferred one. Of the
/// bodies asked for, one is attached: the file's bytes if a file was
/// given, else the form pairs as form-urlencoded text, else the JSON
/// object.
///
/// Fails with the first thing wrong, looking at the query parameters,
/// the explicit headers, the method, the JSON pairs and the form pairs in
/// this order. The URL is never a reason to fail: whatever was typed is
/// normalized, and the URL of the request always names its scheme.
pub fn build_request(input: RequestInput) -> (built: Result<RequestDescriptor, InputError>)
    ensures
        built is Ok <==> input.buildable(),
        built matches Ok(r) ==> r@ == input.request() && has_scheme(r@.url),
        built matches Err(e) ==> input.reports(e),
{
    proof {
        lemma_normalize_idempotent(input.url@);
    }
    let RequestInput { url, params, method, header_flags, json, form, file } = input;
    let url = normalize_url(url.as_str());
    let query = match parse_pairs(&params) {
        Ok(pairs) => pairs,
        Err(e) => {
            return Err(e);
        },
    };
    let assembled = match assemble_headers(&header_flags, json.is_some(), form.is_some()) {
        Ok(entries) => entries,
        Err(e) => {
            return Err(e);
        },
    };
    let explicit: Option<&str> = match &method {
        Some(name) => Some(name.as_str()),
        None => None,
    };
    let method = match infer_method(explicit, json.is_some(), form.is_some()) {
        Ok(m) => m,
        Err(e) => {
            return Err(e);
        },
    };
    let json_value = match build_tree(&json) {
        Ok(v) => v,
        Err(e) => {
            return Err(e);
        },
    };
    let form_value = match build_tree(&form) {
        Ok(v) => v,
        Err(e) => {
            return Err(e);
        },
    };
    let mut body = Body::Empty;
    if json.is_some() {
        body = Body::Json(json_value);
    }
    if form.is_some() {
        match form_encode(&form_value) {
            Some(text) => {
                body = Body::Text(text);
            },
            None => {
                return Err(InputError::UnencodableBody);
            },
        }
    }
    let mut headers: Vec<HeaderEntry> = Vec::new();
    match file {
        Some(f) => {
            let length = decimal(f.contents.len());
            let media_type = guess_content_type(f.path.as_str());
            headers.push(header("Content-Length", length.as_str()));
            headers.push(header("Content-Type", media_type.as_str()));
            body = Body::Bytes(f.contents);
        },
        None => {},
    }
    assert(header_views(headers@) =~= input.file_headers());
    let mut assembled = assembled;
    let ghost first = header_views(headers@);
    let ghost second = header_views(assembled@);
    headers.append(&mut assembled);
    assert(header_views(headers@) =~= first + second);
    let request = RequestDescriptor { url, method, query, headers, body };
    assert(request@.query =~= input.request().query);
    assert(request@.headers =~= input.request().headers);
    Ok(request)
}

} // verus!
