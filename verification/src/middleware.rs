//! The middleware chain around one request: which links are installed
//! and in what order, and what the tracing link writes.
//!
//! The links themselves run around a network call, which is not this
//! crate's business. What is decided here is pure: the order of the
//! links, and the lines that tracing writes for a request and for what
//! came back. Tracing only ever reads what passes through it.

use vstd::prelude::*;
use vstd::string::*;
use crate::error::InputError;
use crate::headers::{header_views, HeaderEntry};
use crate::json::{pretty_json, pretty_text};
use crate::request::{
    has_scheme, lemma_normalize_idempotent, normalized_url, Body, BodyModel, RequestDescriptor,
    RequestInput, RequestModel,
};
use crate::text::{decimal, decimal_digits, string_views};

verus! {

/// A behaviour that wraps the network call.
#[derive(Clone, Copy, Debug, PartialEq, Eq, Structural)]
pub enum Link {
    /// Follows redirects: sends the request again to where a redirect
    /// points.
    FollowRedirects,
    /// Writes what is sent and what comes back to the diagnostic stream.
    Trace,
}

/// The links of the chain, outermost first: redirect following unless
/// it is switched off, then tracing if it is switched on.
pub open spec fn chain_of(no_follow: bool, verbose: bool) -> Seq<Link> {
    (if no_follow {
        Seq::<Link>::empty()
    } else {
        seq![Link::FollowRedirects]
    }) + (if verbose {
        seq![Link::Trace]
    } else {
        Seq::<Link>::empty()
    })
}

/// The chain for one invocation, outermost link first. Redirect
/// following wraps tracing, so every request sent while following a
/// redirect is traced too.
pub fn middleware_chain(no_follow: bool, verbose: bool) -> (chain: Vec<Link>)
    ensures
        chain@ == chain_of(no_follow, verbose),
        chain@.contains(Link::FollowRedirects) <==> !no_follow,
        chain@.contains(Link::Trace) <==> verbose,
        !no_follow && verbose ==> chain@ == seq![Link::FollowRedirects, Link::Trace],
{
    let mut chain: Vec<Link> = Vec::new();
    if !no_follow {
        chain.push(Link::FollowRedirects);
    }
    if verbose {
        chain.push(Link::Trace);
    }
    proof {
        assert(chain@ =~= chain_of(no_follow, verbose));
        if !no_follow {
            assert(chain@[0] == Link::FollowRedirects);
        }
        if verbose {
            assert(chain@[chain@.len() - 1] == Link::Trace);
        }
    }
    chain
}

/// The status and headers of a response, before its body is read.
#[derive(Debug, PartialEq, Eq)]
pub struct ResponseHead {
    /// The numeric status code.
    pub status: u16,
    /// The status as it is displayed, such as `200 OK`.
    pub status_line: String,
    /// The headers in the order they are listed.
    pub headers: Vec<HeaderEntry>,
}

/// What came back from the next link: a response, or the transport's
/// error in its diagnostic form.
#[derive(Debug, PartialEq, Eq)]
pub enum Outcome {
    Response(ResponseHead),
    Failure(String),
}

/// The line that separates what is sent from what comes back.
pub open spec fn separator_line() -> Seq<char> {
    "=========="@
}

/// One header as tracing writes it: `name: value`.
pub open spec fn header_line(header: (Seq<char>, Seq<char>)) -> Seq<char> {
    header.0 + ": "@ + header.1
}

/// The header block: nothing for no headers, else the line `Headers:`
/// followed by one line per header, in order.
pub open spec fn header_block(headers: Seq<(Seq<char>, Seq<char>)>) -> Seq<Seq<char>> {
    if headers.len() == 0 {
        Seq::empty()
    } else {
        seq!["Headers:"@] + headers.map_values(|h: (Seq<char>, Seq<char>)| header_line(h))
    }
}

/// Whether a body has nothing to show: no body, no bytes, or no text. A
/// JSON body always has something to show.
pub open spec fn body_is_empty(body: BodyModel) -> bool {
    match body {
        BodyModel::Empty => true,
        BodyModel::Bytes(b) => b.len() == 0,
        BodyModel::Text(t) => t.len() == 0,
        BodyModel::Json(_) => false,
    }
}

/// The summary of a body: a byte count for bytes, the text itself for
/// text, the indented rendering for JSON. `None` for a JSON body that has
/// no rendering.
pub open spec fn body_summary(body: BodyModel) -> Option<Seq<char>> {
    match body {
        BodyModel::Empty => Some(Seq::empty()),
        BodyModel::Bytes(b) => Some("<"@ + decimal_digits(b.len()) + " bytes>"@),
        BodyModel::Text(t) => Some(t),
        BodyModel::Json(j) => pretty_text(j),
    }
}

/// The body block: nothing for an empty body, else the line `Body:`
/// followed by the summary.
pub open spec fn body_block(body: BodyModel) -> Seq<Seq<char>> {
    if body_is_empty(body) {
        Seq::empty()
    } else {
        seq!["Body:"@, body_summary(body).unwrap()]
    }
}

/// What tracing writes before it forwards a request: method and URL,
/// the header block, the body block, and the separator line.
pub open spec fn request_trace(request: RequestModel) -> Seq<Seq<char>> {
    seq![request.method.name() + " "@ + request.url] + header_block(request.headers) + body_block(
        request.body,
    ) + seq![separator_line()]
}

/// What tracing writes after the next link returned: the status and the
/// header block of a response, or the error.
pub open spec fn outcome_trace(outcome: Outcome) -> Seq<Seq<char>> {
    match outcome {
        Outcome::Response(head) => seq![head.status_line@] + header_block(
            header_views(head.headers@),
        ),
        Outcome::Failure(error) => seq![error@],
    }
}

/// Appends the header block of `headers` to `lines`.
fn push_header_block(lines: &mut Vec<String>, headers: &Vec<HeaderEntry>)
    ensures
        string_views(final(lines)@) == string_views(old(lines)@) + header_block(
            header_views(headers@),
        ),
{
    let ghost start = string_views(lines@);
    let ghost block = header_block(header_views(headers@));
    if headers.len() == 0 {
        assert(string_views(lines@) =~= start + block);
        return ;
    }
    lines.push(String::from_str("Headers:"));
    let mut i: usize = 0;
    assert(string_views(lines@) =~= start + block.take(1));
    while i < headers.len()
        invariant
            i <= headers.len(),
            headers.len() > 0,
            block == header_block(header_views(headers@)),
            string_views(lines@) == start + block.take(i + 1),
        decreases headers.len() - i,
    {
        let ghost before = string_views(lines@);
        let mut line = headers[i].name.clone();
        line.append(": ");
        line.append(headers[i].value.as_str());
        lines.push(line);
        proof {
            assert(line@ == header_line(header_views(headers@)[i as int]));
            assert(block[i + 1] == line@);
            assert(string_views(lines@) =~= before.push(line@));
            assert(start + block.take(i + 2) =~= (start + block.take(i + 1)).push(line@));
        }
        i += 1;
    }
    assert(block.take(i + 1) =~= block);
}

/// The tracing link. It writes, to the diagnostic stream, every request
/// it forwards and every outcome it hands back, and changes neither.
#[derive(Debug)]
pub struct VerboseMiddleware;

impl VerboseMiddleware {
    /// The summary line of a body that has something to show.
    pub fn body_line(&self, body: &Body) -> (line: Option<String>)
        ensures
            match body_summary(body@) {
                Some(text) => line matches Some(l) && l@ == text,
                None => line is None,
            },
    {
        match body {
            Body::Empty => Some(String::new()),
            Body::Bytes(b) => {
                let mut line = String::from_str("<");
                line.append(decimal(b.len()).as_str());
                line.append(" bytes>");
                Some(line)
            },
            Body::Text(t) => Some(t.clone()),
            Body::Json(j) => pretty_json(j),
        }
    }

    /// Whether a body has nothing to show.
    pub fn body_is_empty(&self, body: &Body) -> (empty: bool)
        ensures
            empty == body_is_empty(body@),
    {
        match body {
            Body::Empty => true,
            Body::Bytes(b) => b.len() == 0,
            Body::Text(t) => t.as_str().unicode_len() == 0,
            Body::Json(_) => false,
        }
    }

    /// The lines to write before `request` is forwarded, in order: the
    /// method and the URL; `Headers:` and one `name: value` line per
    /// header, if there are headers; `Body:` and a summary of the body,
    /// if the body is not empty (`<N bytes>` for bytes, the text for
    /// text, indented JSON for JSON); and a separator line. The request
    /// is only read. Fails only for a JSON body that has no rendering.
    pub fn request_lines(&self, request: &RequestDescriptor) -> (lines: Result<
        Vec<String>,
        InputError,
    >)
        ensures
            match lines {
                Ok(l) => (body_is_empty(request@.body) || body_summary(request@.body) is Some)
                    && string_views(l@) == request_trace(request@),
                Err(e) => !body_is_empty(request@.body) && body_summary(request@.body) is None
                    && e is UnencodableBody,
            },
    {
        let mut lines: Vec<String> = Vec::new();
        let mut first = String::from_str(request.method.as_str());
        first.append(" ");
        first.append(request.url.as_str());
        lines.push(first);
        assert(string_views(lines@) =~= seq![request@.method.name() + " "@ + request@.url]);
        push_header_block(&mut lines, &request.headers);
        let ghost head = string_views(lines@);
        if !self.body_is_empty(&request.body) {
            match self.body_line(&request.body) {
                Some(summary) => {
                    lines.push(String::from_str("Body:"));
                    lines.push(summary);
                },
                None => {
                    return Err(InputError::UnencodableBody);
                },
            }
        }
        assert(string_views(lines@) =~= head + body_block(request@.body));
        let ghost body_done = string_views(lines@);
        lines.push(String::from_str("=========="));
        assert(string_views(lines@) =~= body_done.push(separator_line()));
        assert(string_views(lines@) =~= request_trace(request@));
        Ok(lines)
    }

    /// The lines to write after the next link returned, in order: for a
    /// response its status line, then `Headers:` and one line per header
    /// if there are headers; for a failure the error. The outcome is only
    /// read, so it is handed on as it came, a failure included.
    pub fn outcome_lines(&self, outcome: &Outcome) -> (lines: Vec<String>)
        ensures
            string_views(lines@) == outcome_trace(*outcome),
    {
        let mut lines: Vec<String> = Vec::new();
        match outcome {
            Outcome::Response(head) => {
                lines.push(head.status_line.clone());
                assert(string_views(lines@) =~= seq![head.status_line@]);
                push_header_block(&mut lines, &head.headers);
            },
            Outcome::Failure(error) => {
                lines.push(error.clone());
                assert(string_views(lines@) =~= seq![error@]);
            },
        }
        lines
    }
}

/// What tracing shows of a request built from the command line: its
/// first line is the method, a space, and the normalized URL, which
/// always names its scheme, whatever URL was typed.
pub proof fn lemma_traced_url(input: RequestInput)
    requires
        input.buildable(),
    ensures
        request_trace(input.request())[0] == input.chosen_method().unwrap().name() + " "@
            + normalized_url(input.url@),
        has_scheme(normalized_url(input.url@)),
{
    lemma_normalize_idempotent(input.url@);
}

} // verus!
