//! Merging the header sources of one request into one ordered list.
//!
//! Entries are only ever appended: a later source never removes or
//! replaces what an earlier one contributed, so a name may occur twice.

use vstd::prelude::*;
use vstd::string::*;
use crate::error::InputError;
use crate::pairs::{first_malformed, pair_views, pairs_of, parse_pairs};
use crate::text::{join, joined, lowercased, same_text, string_views, to_lowercase};

verus! {

/// One header: a name and a value.
#[derive(Debug, PartialEq, Eq)]
pub struct HeaderEntry {
    pub name: String,
    pub value: String,
}

impl View for HeaderEntry {
    type V = (Seq<char>, Seq<char>);

    open spec fn view(&self) -> (Seq<char>, Seq<char>) {
        (self.name@, self.value@)
    }
}

/// The views of a list of headers.
pub open spec fn header_views(entries: Seq<HeaderEntry>) -> Seq<(Seq<char>, Seq<char>)> {
    entries.map_values(|h: HeaderEntry| h@)
}

/// The flags that contribute headers to a request.
#[derive(Debug, PartialEq, Eq)]
pub struct HeaderFlags {
    /// Raw header flags, each `name=value` or `name:value`, in
    /// command-line order.
    pub explicit: Vec<String>,
    /// Token for `Authorization: Bearer`.
    pub bearer: Option<String>,
    /// Token for `Authorization: Token`.
    pub token: Option<String>,
    /// `user:pass` for `Authorization: Basic`.
    pub user: Option<String>,
    /// Cookie flags, in command-line order.
    pub cookies: Vec<String>,
}

/// What `base64`'s standard engine encodes the UTF-8 bytes of a text to.
pub uninterp spec fn base64_text(text: Seq<char>) -> Seq<char>;

/// `base64::engine::general_purpose::STANDARD.encode`: the padded
/// standard-alphabet encoding of the bytes of `text`. The result depends
/// on the text alone. (The call panics only for inputs longer than three
/// quarters of the address space, which no string in memory is.)
#[verifier::external_body]
pub(crate) fn base64_standard(text: &str) -> (encoded: String)
    ensures
        encoded@ == base64_text(text@),
{
    base64::Engine::encode(&base64::engine::general_purpose::STANDARD, text)
}

/// The entry a shortcut contributes: none when the shortcut is not set.
pub open spec fn optional_entry(set: bool, name: Seq<char>, value: Seq<char>) -> Seq<
    (Seq<char>, Seq<char>),
> {
    if set {
        seq![(name, value)]
    } else {
        Seq::empty()
    }
}

/// The view of an optional string, empty when there is none.
pub open spec fn text_or_empty(text: Option<String>) -> Seq<char> {
    match text {
        Some(t) => t@,
        None => Seq::empty(),
    }
}

/// The `Authorization` entries of the three shortcuts, bearer first, then
/// token, then basic.
pub open spec fn shortcut_headers(src: HeaderFlags) -> Seq<(Seq<char>, Seq<char>)> {
    optional_entry(src.bearer is Some, "Authorization"@, "Bearer "@ + text_or_empty(src.bearer))
        + optional_entry(src.token is Some, "Authorization"@, "Token "@ + text_or_empty(src.token))
        + optional_entry(
        src.user is Some,
        "Authorization"@,
        "Basic "@ + base64_text(text_or_empty(src.user)),
    )
}

/// The single `Cookie` entry: all cookies joined with `; `. None when
/// there is no cookie.
pub open spec fn cookie_headers(src: HeaderFlags) -> Seq<(Seq<char>, Seq<char>)> {
    optional_entry(
        src.cookies@.len() > 0,
        "Cookie"@,
        joined(string_views(src.cookies@), "; "@),
    )
}

/// Whether a header is named `Accept`, whatever the case of its letters.
pub open spec fn names_accept(header: (Seq<char>, Seq<char>)) -> bool {
    lowercased(header.0) == "accept"@
}

/// Whether some header of the list is named `Accept`.
pub open spec fn has_accept(entries: Seq<(Seq<char>, Seq<char>)>) -> bool {
    exists|i: int| 0 <= i < entries.len() && names_accept(#[trigger] entries[i])
}

/// The headers that come from the caller's flags: explicit ones, then
/// the shortcuts, then the cookies.
pub open spec fn declared_headers(src: HeaderFlags) -> Seq<(Seq<char>, Seq<char>)> {
    pairs_of(string_views(src.explicit@)) + shortcut_headers(src) + cookie_headers(src)
}

/// The content-negotiation defaults: `Accept: application/json` for a
/// JSON body unless an `Accept` header was declared, then `Content-Type`
/// and `Accept: */*` for a form body, whatever was declared.
pub open spec fn default_headers(src: HeaderFlags, json_body: bool, form_body: bool) -> Seq<
    (Seq<char>, Seq<char>),
> {
    optional_entry(
        json_body && !has_accept(declared_headers(src)),
        "Accept"@,
        "application/json"@,
    ) + if form_body {
        seq![("Content-Type"@, "application/x-www-form-urlencoded"@), ("Accept"@, "*/*"@)]
    } else {
        Seq::empty()
    }
}

/// The final header list of a request.
pub open spec fn assembled_headers(src: HeaderFlags, json_body: bool, form_body: bool) -> Seq<
    (Seq<char>, Seq<char>),
> {
    declared_headers(src) + default_headers(src, json_body, form_body)
}

/// A header from borrowed name and value.
pub fn header(name: &str, value: &str) -> (entry: HeaderEntry)
    ensures
        entry@ == (name@, value@),
{
    HeaderEntry { name: String::from_str(name), value: String::from_str(value) }
}

/// Whether some header of `entries` is named `Accept`, in any case.
pub fn any_accept(entries: &Vec<HeaderEntry>) -> (found: bool)
    ensures
        found == has_accept(header_views(entries@)),
{
    let mut i: usize = 0;
    while i < entries.len()
        invariant
            i <= entries.len(),
            forall|j: int| 0 <= j < i ==> !names_accept(#[trigger] header_views(entries@)[j]),
        decreases entries.len() - i,
    {
        let lower = to_lowercase(entries[i].name.as_str());
        if same_text(lower.as_str(), "accept") {
            assert(names_accept(header_views(entries@)[i as int]));
            return true;
        }
        i += 1;
    }
    false
}

/// Appends `Authorization: <scheme><credential>`.
fn push_authorization(entries: &mut Vec<HeaderEntry>, scheme: &str, credential: &str)
    ensures
        header_views(final(entries)@) == header_views(old(entries)@).push(
            ("Authorization"@, scheme@ + credential@),
        ),
{
    let value = String::from_str(scheme).concat(credential);
    entries.push(HeaderEntry { name: String::from_str("Authorization"), value });
    assert(header_views(entries@) =~= header_views(old(entries)@).push(
        ("Authorization"@, scheme@ + credential@),
    ));
}

/// Assembles the header list of one request, in this order: the explicit
/// header flags as given; `Authorization: Bearer`, `Authorization: Token`
/// and `Authorization: Basic` (the `user:pass` text base64-encoded) for
/// the shortcuts that are set; one `Cookie` header joining all cookies
/// with `; `; `Accept: application/json` for a JSON body unless a header
/// named `Accept` is already there; `Content-Type:
/// application/x-www-form-urlencoded` and `Accept: */*` for a form body.
/// Nothing is removed or deduplicated. Fails on the first explicit header
/// without a separator.
pub fn assemble_headers(src: &HeaderFlags, json_body: bool, form_body: bool) -> (assembled: Result<
    Vec<HeaderEntry>,
    InputError,
>)
    ensures
        match assembled {
            Ok(entries) => first_malformed(string_views(src.explicit@)) == src.explicit@.len()
                && header_views(entries@) == assembled_headers(*src, json_body, form_body),
            Err(e) => first_malformed(string_views(src.explicit@)) < src.explicit@.len()
                && e.is_malformed_pair(
                src.explicit@[first_malformed(string_views(src.explicit@))]@,
            ),
        },
{
    let explicit = match parse_pairs(&src.explicit) {
        Ok(pairs) => pairs,
        Err(e) => {
            return Err(e);
        },
    };
    let mut entries: Vec<HeaderEntry> = Vec::new();
    let mut i: usize = 0;
    while i < explicit.len()
        invariant
            i <= explicit.len(),
            header_views(entries@) == pair_views(explicit@).take(i as int),
        decreases explicit.len() - i,
    {
        let ghost before = entries@;
        entries.push(header(explicit[i].0.as_str(), explicit[i].1.as_str()));
        proof {
            let now = header_views(entries@);
            let goal = pair_views(explicit@).take(i + 1);
            assert(header_views(before).len() == i);
            assert forall|j: int| 0 <= j < now.len() implies now[j] == goal[j] by {
                if j < i {
                    assert(header_views(before)[j] == pair_views(explicit@).take(i as int)[j]);
                }
            }
            assert(now =~= goal);
        }
        i += 1;
    }
    assert(header_views(entries@) =~= pairs_of(string_views(src.explicit@)));
    let ghost from_flags = header_views(entries@);

    match &src.bearer {
        Some(token) => {
            push_authorization(&mut entries, "Bearer ", token.as_str());
        },
        None => {},
    }
    match &src.token {
        Some(token) => {
            push_authorization(&mut entries, "Token ", token.as_str());
        },
        None => {},
    }
    match &src.user {
        Some(user) => {
            let encoded = base64_standard(user.as_str());
            push_authorization(&mut entries, "Basic ", encoded.as_str());
        },
        None => {},
    }
    assert(header_views(entries@) =~= from_flags + shortcut_headers(*src));

    if src.cookies.len() > 0 {
        let all = join(&src.cookies, "; ");
        entries.push(header("Cookie", all.as_str()));
    }
    assert(header_views(entries@) =~= declared_headers(*src));

    if json_body && !any_accept(&entries) {
        entries.push(header("Accept", "application/json"));
    }
    if form_body {
        entries.push(header("Content-Type", "application/x-www-form-urlencoded"));
        entries.push(header("Accept", "*/*"));
    }
    assert(header_views(entries@) =~= assembled_headers(*src, json_body, form_body));
    Ok(entries)
}

/// How many entries the sources contribute beyond the explicit ones.
pub open spec fn added_count(src: HeaderFlags, json_body: bool, form_body: bool) -> nat {
    shortcut_headers(src).len() + cookie_headers(src).len() + default_headers(
        src,
        json_body,
        form_body,
    ).len()
}

/// Append-only merge: the explicit headers open the list, in their own
/// order; every shortcut that is set follows them with an entry of its
/// own, bearer before token before basic; and the list is as long as all
/// contributions together, so nothing was merged or dropped.
pub proof fn lemma_headers_append_only(src: HeaderFlags, json_body: bool, form_body: bool)
    ensures
        assembled_headers(src, json_body, form_body).take(src.explicit@.len() as int) == pairs_of(
            string_views(src.explicit@),
        ),
        assembled_headers(src, json_body, form_body).len() == src.explicit@.len() + added_count(
            src,
            json_body,
            form_body,
        ),
        src.bearer matches Some(b) ==> assembled_headers(
            src,
            json_body,
            form_body,
        )[src.explicit@.len() as int] == ("Authorization"@, "Bearer "@ + b@),
        shortcut_headers(src).len() == (if src.bearer is Some {
            1nat
        } else {
            0nat
        }) + (if src.token is Some {
            1nat
        } else {
            0nat
        }) + (if src.user is Some {
            1nat
        } else {
            0nat
        }),
{
    let explicit = pairs_of(string_views(src.explicit@));
    assert(assembled_headers(src, json_body, form_body).take(explicit.len() as int) =~= explicit);
}

} // verus!
