//! Folding flat `key=value` arguments with dotted keys into one nested
//! JSON object.

use vstd::prelude::*;
use vstd::string::*;
use crate::error::InputError;
use crate::json::{
    child_object, entries_of, json_kind, json_of, map_insert, map_new, object_value, parse_json,
    parsed_json, slot, string_value, Json, JsonKind,
};
use crate::pairs::{
    has_no_empty_segment, key_path, key_segments, no_empty_segment, pair_of, separators,
    split_pair,
};
use crate::text::{str_views, string_views};

verus! {

/// The value a raw text stands for, given what the JSON reader made of
/// it: the scalar it read, or the text itself where the reader failed or
/// read an array or an object.
pub open spec fn leaf_of(raw: Seq<char>, parsed: Option<Json>) -> Json {
    match parsed {
        Some(v) => if v.is_scalar() {
            v
        } else {
            Json::Text(raw)
        },
        None => Json::Text(raw),
    }
}

/// The leaf value inferred from a raw text.
pub open spec fn inferred_leaf(raw: Seq<char>) -> Json {
    leaf_of(raw, parsed_json(raw))
}

/// The models of an optional value.
pub open spec fn optional_json(parsed: Option<serde_json::Value>) -> Option<Json> {
    match parsed {
        Some(v) => Some(json_of(v)),
        None => None,
    }
}

/// `entries` with `leaf` bound at `path`: objects are created for absent
/// segments on the way, and whatever the last segment was bound to is
/// replaced. `None` when the way leads through a value that is no object,
/// or when `path` is empty.
pub open spec fn insert_at(
    entries: Map<Seq<char>, Json>,
    path: Seq<Seq<char>>,
    leaf: Json,
) -> Option<Map<Seq<char>, Json>>
    decreases path.len(),
{
    if path.len() == 0 {
        None
    } else if path.len() == 1 {
        Some(entries.insert(path[0], leaf))
    } else {
        match slot(entries, path[0]) {
            Json::Object(inner) => match insert_at(inner, path.skip(1), leaf) {
                Some(updated) => Some(entries.insert(path[0], Json::Object(updated))),
                None => None,
            },
            _ => None,
        }
    }
}

/// The value found by following `path` from `entries`, `None` when a
/// segment is absent or the way leads through a value that is no object.
pub open spec fn lookup(entries: Map<Seq<char>, Json>, path: Seq<Seq<char>>) -> Option<Json>
    decreases path.len(),
{
    if path.len() == 0 || !entries.contains_key(path[0]) {
        None
    } else if path.len() == 1 {
        Some(entries[path[0]])
    } else {
        match entries[path[0]] {
            Json::Object(inner) => lookup(inner, path.skip(1)),
            _ => None,
        }
    }
}

/// Why a raw argument cannot be added to a tree.
pub enum BuildFailure {
    /// No separator, or an empty key segment.
    Malformed,
    /// The key path leads through a value that is no object.
    Conflict,
}

/// A raw argument read as a key path and a leaf value. `None` when the
/// argument has no separator or its key has an empty segment.
pub open spec fn binding_of(raw: Seq<char>) -> Option<(Seq<Seq<char>>, Json)> {
    match pair_of(raw) {
        Some((key, value)) => if no_empty_segment(key_segments(key)) {
            Some((key_segments(key), inferred_leaf(value)))
        } else {
            None
        },
        None => None,
    }
}

/// `entries` after one more raw argument.
pub open spec fn with_pair(entries: Map<Seq<char>, Json>, raw: Seq<char>) -> Result<
    Map<Seq<char>, Json>,
    BuildFailure,
> {
    match binding_of(raw) {
        Some((path, leaf)) => match insert_at(entries, path, leaf) {
            Some(updated) => Ok(updated),
            None => Err(BuildFailure::Conflict),
        },
        None => Err(BuildFailure::Malformed),
    }
}

/// The object built from raw arguments, taken in order from the empty
/// object; or the index of the first argument that cannot be added, with
/// the reason.
pub open spec fn tree_of(raws: Seq<Seq<char>>) -> Result<Map<Seq<char>, Json>, (int, BuildFailure)>
    decreases raws.len(),
{
    if raws.len() == 0 {
        Ok(Map::empty())
    } else {
        match tree_of(raws.drop_last()) {
            Ok(entries) => match with_pair(entries, raws.last()) {
                Ok(updated) => Ok(updated),
                Err(why) => Err((raws.len() - 1, why)),
            },
            Err(e) => Err(e),
        }
    }
}

/// The tree that the arguments build; the empty tree where they build
/// none.
pub open spec fn built_tree(raws: Seq<Seq<char>>) -> Map<Seq<char>, Json> {
    match tree_of(raws) {
        Ok(entries) => entries,
        Err(_) => Map::empty(),
    }
}

/// Chooses the leaf for a raw text from what the JSON reader returned for
/// it: a scalar is kept, anything else gives the text as a string.
pub fn leaf_from_parse(raw: &str, parsed: Option<serde_json::Value>) -> (leaf: serde_json::Value)
    ensures
        json_of(leaf) == leaf_of(raw@, optional_json(parsed)),
{
    match parsed {
        Some(v) => {
            match json_kind(&v) {
                JsonKind::Array => string_value(raw),
                JsonKind::Object => string_value(raw),
                _ => v,
            }
        },
        None => string_value(raw),
    }
}

/// Infers the leaf value of a raw text: `true`, `5`, `-5.5`, `null` and
/// quoted strings become the scalars they spell; any other text is kept
/// as a string.
pub fn infer_leaf(raw: &str) -> (leaf: serde_json::Value)
    ensures
        json_of(leaf) == inferred_leaf(raw@),
        json_of(leaf).is_scalar(),
{
    let parsed = parse_json(raw);
    leaf_from_parse(raw, parsed)
}

/// Binds `leaf` at the segments of `path` from index `from` on, inside
/// `tree`.
fn insert_from(
    tree: &mut serde_json::Map<String, serde_json::Value>,
    path: &Vec<String>,
    from: usize,
    leaf: serde_json::Value,
) -> (free: bool)
    requires
        from < path.len(),
    ensures
        match insert_at(
            entries_of(*old(tree)),
            string_views(path@).skip(from as int),
            json_of(leaf),
        ) {
            Some(updated) => free && entries_of(*final(tree)) == updated,
            None => !free && entries_of(*final(tree)) == entries_of(*old(tree)),
        },
    decreases path.len() - from,
{
    let ghost rest = string_views(path@).skip(from as int);
    assert(rest[0] == path@[from as int]@);
    if from + 1 == path.len() {
        map_insert(tree, path[from].as_str(), leaf);
        true
    } else {
        assert(rest.skip(1) =~= string_views(path@).skip(from + 1));
        match child_object(tree, path[from].as_str()) {
            Some(child) => {
                let ghost before = entries_of(*child);
                let free = insert_from(child, path, from + 1, leaf);
                proof {
                    if !free {
                        lemma_insert_into_empty(rest.skip(1), json_of(leaf));
                        assert(entries_of(*old(tree)).contains_key(rest[0]));
                        assert(entries_of(*old(tree)).insert(rest[0], Json::Object(before))
                            =~= entries_of(*old(tree)));
                    }
                }
                free
            },
            None => false,
        }
    }
}

/// Binds `leaf` at `path` inside `tree`, creating the objects on the way
/// that are not there yet and replacing what the last segment was bound
/// to. Returns whether that could be done: it cannot when `path` is empty
/// or leads through a value that is no object, and `tree` is then left as
/// it was.
pub fn insert_leaf(
    tree: &mut serde_json::Map<String, serde_json::Value>,
    path: &Vec<String>,
    leaf: serde_json::Value,
) -> (free: bool)
    ensures
        match insert_at(entries_of(*old(tree)), string_views(path@), json_of(leaf)) {
            Some(updated) => free && entries_of(*final(tree)) == updated,
            None => !free && entries_of(*final(tree)) == entries_of(*old(tree)),
        },
{
    assert(string_views(path@).skip(0) =~= string_views(path@));
    if path.len() == 0 {
        false
    } else {
        insert_from(tree, path, 0, leaf)
    }
}

/// Builds the nested object that a sequence of `key=value` / `key:value`
/// arguments describes. Each argument is split at its first `=` or `:`,
/// its key at every `.`, and its value is bound at that path; a later
/// argument replaces what an earlier one bound at the same path. Stops at
/// the first argument that is malformed (it has no separator, or its key
/// has an empty segment) or whose path leads through a value that is no
/// object, and reports that argument.
pub fn build_map(values: &[&str]) -> (built: Result<serde_json::Value, InputError>)
    ensures
        match tree_of(str_views(values@)) {
            Ok(entries) => built matches Ok(v) && json_of(v) == Json::Object(entries),
            Err((i, BuildFailure::Malformed)) => built matches Err(e) && e.is_malformed_pair(
                values@[i]@,
            ),
            Err((i, BuildFailure::Conflict)) => built matches Err(e) && e.is_conflicting_key_path(
                values@[i]@,
            ),
        },
{
    let seps = separators();
    let mut tree = map_new();
    let mut i: usize = 0;
    assert(str_views(values@).take(0) =~= Seq::empty());
    while i < values.len()
        invariant
            i <= values.len(),
            seps@ == crate::pairs::pair_separators(),
            tree_of(str_views(values@).take(i as int)) == Ok::<
                Map<Seq<char>, Json>,
                (int, BuildFailure),
            >(entries_of(tree)),
        decreases values.len() - i,
    {
        let raw = values[i];
        let ghost seen = str_views(values@).take(i + 1);
        proof {
            assert(seen.drop_last() =~= str_views(values@).take(i as int));
            assert(seen.last() == raw@);
        }
        match split_pair(raw, seps.as_slice()) {
            None => {
                proof {
                    lemma_tree_of_prefix_failure(str_views(values@), i + 1);
                }
                return Err(InputError::MalformedPair(String::from_str(raw)));
            },
            Some((key, value)) => {
                let path = key_path(key);
                if !has_no_empty_segment(&path) {
                    proof {
                        lemma_tree_of_prefix_failure(str_views(values@), i + 1);
                    }
                    return Err(InputError::MalformedPair(String::from_str(raw)));
                }
                let leaf = infer_leaf(value);
                if !insert_leaf(&mut tree, &path, leaf) {
                    proof {
                        lemma_tree_of_prefix_failure(str_views(values@), i + 1);
                    }
                    return Err(InputError::ConflictingKeyPath(String::from_str(raw)));
                }
            },
        }
        i += 1;
    }
    assert(str_views(values@).take(i as int) =~= str_views(values@));
    Ok(object_value(tree))
}

/// Binding a leaf at a non-empty path of the empty object always
/// succeeds.
pub proof fn lemma_insert_into_empty(path: Seq<Seq<char>>, leaf: Json)
    requires
        path.len() > 0,
    ensures
        insert_at(Map::empty(), path, leaf) is Some,
    decreases path.len(),
{
    if path.len() > 1 {
        lemma_insert_into_empty(path.skip(1), leaf);
    }
}

/// A failure is reported at the index of one of the arguments.
pub proof fn lemma_failure_index(raws: Seq<Seq<char>>)
    ensures
        tree_of(raws) matches Err((i, _)) ==> 0 <= i < raws.len(),
    decreases raws.len(),
{
    if raws.len() > 0 {
        lemma_failure_index(raws.drop_last());
    }
}

/// Once a prefix of the arguments fails, the whole sequence fails at the
/// same place for the same reason.
pub proof fn lemma_tree_of_prefix_failure(raws: Seq<Seq<char>>, n: int)
    requires
        0 <= n <= raws.len(),
        tree_of(raws.take(n)) is Err,
    ensures
        tree_of(raws) == tree_of(raws.take(n)),
    decreases raws.len() - n,
{
    if n == raws.len() {
        assert(raws.take(n) =~= raws);
    } else {
        assert(raws.take(n + 1).drop_last() =~= raws.take(n));
        lemma_tree_of_prefix_failure(raws, n + 1);
    }
}

} // verus!
