//! Splitting raw command-line arguments into key/value pairs and dotted
//! keys into path segments.

use vstd::prelude::*;
use vstd::string::*;
use crate::error::InputError;
use crate::text::{
    chars_of, find_separator, segments, split_at_first, split_segments, string_views,
};

verus! {

/// The characters that separate a key from its value: `=` and `:`.
pub open spec fn pair_separators() -> Seq<char> {
    seq!['=', ':']
}

/// The character that separates the segments of a dotted key.
pub open spec fn path_separator() -> char {
    '.'
}

/// The segments of a dotted key.
pub open spec fn key_segments(key: Seq<char>) -> Seq<Seq<char>> {
    segments(key, path_separator())
}

/// A raw argument read as a key/value pair, `None` when it has no
/// separator.
pub open spec fn pair_of(raw: Seq<char>) -> Option<(Seq<char>, Seq<char>)> {
    split_at_first(raw, pair_separators())
}

/// A key path is usable when none of its segments is empty.
pub open spec fn no_empty_segment(path: Seq<Seq<char>>) -> bool {
    forall|i: int| 0 <= i < path.len() ==> (#[trigger] path[i]).len() > 0
}

/// The characters `=` and `:` as a vector.
pub fn separators() -> (seps: Vec<char>)
    ensures
        seps@ == pair_separators(),
{
    let mut seps: Vec<char> = Vec::new();
    seps.push('=');
    seps.push(':');
    assert(seps@ =~= pair_separators());
    seps
}

/// Splits `pair` at the first character that is one of `sep`. The
/// separator is consumed; later separators stay in the second part.
/// `None` when `pair` holds none of them.
pub fn split_pair<'a>(pair: &'a str, sep: &[char]) -> (parts: Option<(&'a str, &'a str)>)
    ensures
        match parts {
            Some((key, value)) => split_at_first(pair@, sep@) == Some((key@, value@)),
            None => split_at_first(pair@, sep@) is None,
        },
{
    let chars = chars_of(pair);
    let at: usize = find_separator(chars.as_slice(), 0, sep);
    assert(chars@.skip(0) =~= pair@);
    if at < chars.len() {
        let key = pair.substring_char(0, at);
        let value = pair.substring_char(at + 1, chars.len());
        assert(key@ =~= pair@.take(at as int));
        assert(value@ =~= pair@.skip(at + 1));
        Some((key, value))
    } else {
        None
    }
}

/// Splits a raw argument at its first `=` or `:` into owned key and
/// value, or reports the argument as malformed.
pub fn parse_pair(raw: &str) -> (parsed: Result<(String, String), InputError>)
    ensures
        match parsed {
            Ok((key, value)) => pair_of(raw@) == Some((key@, value@)),
            Err(e) => pair_of(raw@) is None && e.is_malformed_pair(raw@),
        },
{
    let seps = separators();
    match split_pair(raw, seps.as_slice()) {
        Some((key, value)) => Ok((String::from_str(key), String::from_str(value))),
        None => Err(InputError::MalformedPair(String::from_str(raw))),
    }
}

/// The views of a sequence of owned key/value pairs.
pub open spec fn pair_views(pairs: Seq<(String, String)>) -> Seq<(Seq<char>, Seq<char>)> {
    pairs.map_values(|p: (String, String)| (p.0@, p.1@))
}

/// Index of the first raw argument without a separator, or `raws.len()`.
pub open spec fn first_malformed(raws: Seq<Seq<char>>) -> int
    decreases raws.len(),
{
    if raws.len() == 0 {
        0
    } else if pair_of(raws[0]) is None {
        0
    } else {
        1 + first_malformed(raws.drop_first())
    }
}

/// `first_malformed` is the least index whose argument has no separator.
pub proof fn lemma_first_malformed(raws: Seq<Seq<char>>)
    ensures
        0 <= first_malformed(raws) <= raws.len(),
        forall|i: int| 0 <= i < first_malformed(raws) ==> pair_of(#[trigger] raws[i]) is Some,
        first_malformed(raws) < raws.len() ==> pair_of(raws[first_malformed(raws)]) is None,
    decreases raws.len(),
{
    if raws.len() > 0 && pair_of(raws[0]) is Some {
        let rest = raws.drop_first();
        lemma_first_malformed(rest);
        assert forall|i: int| 0 <= i < first_malformed(raws) implies pair_of(
            #[trigger] raws[i],
        ) is Some by {
            if i > 0 {
                assert(raws[i] == rest[i - 1]);
            }
        }
    }
}

/// An index whose argument has no separator, with none such before it,
/// is the first malformed one.
pub proof fn lemma_first_malformed_is(raws: Seq<Seq<char>>, i: int)
    requires
        0 <= i <= raws.len(),
        forall|j: int| 0 <= j < i ==> pair_of(#[trigger] raws[j]) is Some,
        i < raws.len() ==> pair_of(raws[i]) is None,
    ensures
        first_malformed(raws) == i,
{
    lemma_first_malformed(raws);
    let f = first_malformed(raws);
    if f < i {
        assert(pair_of(raws[f]) is Some);
    } else if i < f {
        assert(pair_of(raws[i]) is Some);
    }
}

/// Every raw argument read as a pair, in order.
pub open spec fn pairs_of(raws: Seq<Seq<char>>) -> Seq<(Seq<char>, Seq<char>)> {
    raws.map_values(|raw: Seq<char>| pair_of(raw).unwrap())
}

/// Splits every argument at its first `=` or `:`, keeping order and
/// duplicates. Fails on the first argument without a separator.
pub fn parse_pairs(raws: &Vec<String>) -> (parsed: Result<Vec<(String, String)>, InputError>)
    ensures
        match parsed {
            Ok(pairs) => first_malformed(string_views(raws@)) == raws@.len() && pair_views(pairs@)
                == pairs_of(string_views(raws@)),
            Err(e) => first_malformed(string_views(raws@)) < raws@.len() && e.is_malformed_pair(
                raws@[first_malformed(string_views(raws@))]@,
            ),
        },
{
    let mut pairs: Vec<(String, String)> = Vec::new();
    let mut i: usize = 0;
    while i < raws.len()
        invariant
            i <= raws.len(),
            pairs@.len() == i,
            forall|j: int| 0 <= j < i ==> pair_of(#[trigger] string_views(raws@)[j]) == Some(
                (pairs@[j].0@, pairs@[j].1@),
            ),
        decreases raws.len() - i,
    {
        match parse_pair(raws[i].as_str()) {
            Ok(pair) => {
                pairs.push(pair);
            },
            Err(e) => {
                proof {
                    lemma_first_malformed_is(string_views(raws@), i as int);
                }
                return Err(e);
            },
        }
        i += 1;
    }
    proof {
        lemma_first_malformed_is(string_views(raws@), i as int);
        assert(pair_views(pairs@) =~= pairs_of(string_views(raws@)));
    }
    Ok(pairs)
}

/// The segments of a dotted key, in order.
pub fn key_path(key: &str) -> (path: Vec<String>)
    ensures
        string_views(path@) == key_segments(key@),
{
    split_segments(key, '.')
}

/// Whether no segment of `path` is empty.
pub fn has_no_empty_segment(path: &Vec<String>) -> (ok: bool)
    ensures
        ok == no_empty_segment(string_views(path@)),
{
    let mut i: usize = 0;
    while i < path.len()
        invariant
            i <= path.len(),
            forall|j: int| 0 <= j < i ==> (#[trigger] string_views(path@)[j]).len() > 0,
        decreases path.len() - i,
    {
        if path[i].as_str().unicode_len() == 0 {
            assert(string_views(path@)[i as int].len() == 0);
            return false;
        }
        i += 1;
    }
    true
}

} // verus!
