//! What holds of every tree built from key/value arguments: where the
//! values end up, where they come from, and which one stays when two
//! arguments name the same place.

use vstd::prelude::*;
use crate::json::{no_entries, parsed_json, slot, Json};
use crate::pairs::{key_segments, no_empty_segment, pair_of, pair_separators};
use crate::text::lemma_first_separator_is;
use crate::tree::{
    binding_of, built_tree, inferred_leaf, insert_at, lemma_insert_into_empty, lookup, tree_of,
    BuildFailure,
};

verus! {

/// `p` is an initial part of `q`, or `q` itself.
pub open spec fn path_is_prefix(p: Seq<Seq<char>>, q: Seq<Seq<char>>) -> bool {
    p.len() <= q.len() && q.take(p.len() as int) == p
}

/// `path` leads to a value in `entries` that is no object.
pub open spec fn bound_to_leaf(entries: Map<Seq<char>, Json>, path: Seq<Seq<char>>) -> bool {
    match lookup(entries, path) {
        Some(x) => !(x is Object),
        None => false,
    }
}

/// The key path of a well-formed raw argument.
pub open spec fn path_of(raw: Seq<char>) -> Seq<Seq<char>> {
    binding_of(raw).unwrap().0
}

/// The leaf value of a well-formed raw argument.
pub open spec fn leaf_for(raw: Seq<char>) -> Json {
    binding_of(raw).unwrap().1
}

/// Every argument has a separator and a key without empty segments.
pub open spec fn all_well_formed(raws: Seq<Seq<char>>) -> bool {
    forall|i: int| 0 <= i < raws.len() ==> binding_of(#[trigger] raws[i]) is Some
}

/// No argument's key path is an initial part of, or equal to, the key
/// path of another argument.
pub open spec fn prefix_free(raws: Seq<Seq<char>>) -> bool {
    forall|i: int, j: int|
        0 <= i < raws.len() && 0 <= j < raws.len() && i != j ==> !path_is_prefix(
            path_of(#[trigger] raws[i]),
            path_of(#[trigger] raws[j]),
        )
}

/// Dropping the shared first segment of two paths keeps the prefix
/// relation between them.
proof fn lemma_prefix_of_tails(p: Seq<Seq<char>>, q: Seq<Seq<char>>)
    requires
        p.len() > 0,
        q.len() > 0,
        p[0] == q[0],
    ensures
        path_is_prefix(p, q) == path_is_prefix(p.skip(1), q.skip(1)),
{
    if path_is_prefix(p, q) {
        assert forall|i: int| 0 <= i < p.len() - 1 implies q.skip(1).take(p.len() - 1)[i] == p.skip(
            1,
        )[i] by {
            assert(q.take(p.len() as int)[i + 1] == p[i + 1]);
        }
        assert(q.skip(1).take(p.skip(1).len() as int) =~= p.skip(1));
    }
    if path_is_prefix(p.skip(1), q.skip(1)) {
        assert forall|i: int| 0 <= i < p.len() implies q.take(p.len() as int)[i] == p[i] by {
            if i > 0 {
                assert(q.skip(1).take(p.len() - 1)[i - 1] == p.skip(1)[i - 1]);
            }
        }
        assert(q.take(p.len() as int) =~= p);
    }
}

/// A leaf is found where it was bound.
pub proof fn lemma_lookup_inserted(entries: Map<Seq<char>, Json>, path: Seq<Seq<char>>, leaf: Json)
    requires
        insert_at(entries, path, leaf) is Some,
    ensures
        lookup(insert_at(entries, path, leaf).unwrap(), path) == Some(leaf),
    decreases path.len(),
{
    if path.len() > 1 {
        let inner = slot(entries, path[0])->Object_0;
        lemma_lookup_inserted(inner, path.skip(1), leaf);
    }
}

/// Binding a leaf at one path changes nothing at a path that neither
/// starts with it nor is an initial part of it.
pub proof fn lemma_lookup_elsewhere(
    entries: Map<Seq<char>, Json>,
    path: Seq<Seq<char>>,
    leaf: Json,
    other: Seq<Seq<char>>,
)
    requires
        insert_at(entries, path, leaf) is Some,
        !path_is_prefix(path, other),
        !path_is_prefix(other, path),
    ensures
        lookup(insert_at(entries, path, leaf).unwrap(), other) == lookup(entries, other),
    decreases path.len(),
{
    assert(other.len() > 0) by {
        if other.len() == 0 {
            assert(path.take(0) =~= other);
        }
    }
    if other[0] == path[0] {
        if path.len() == 1 {
            assert(other.take(1) =~= path);
        }
        if other.len() == 1 {
            assert(path.take(1) =~= other);
        }
        lemma_prefix_of_tails(path, other);
        lemma_prefix_of_tails(other, path);
        let inner = slot(entries, path[0])->Object_0;
        lemma_lookup_elsewhere(inner, path.skip(1), leaf, other.skip(1));
    }
}

/// A path that runs through a place bound to a leaf cannot be bound.
pub proof fn lemma_insert_blocked(
    entries: Map<Seq<char>, Json>,
    path: Seq<Seq<char>>,
    leaf: Json,
    taken: Seq<Seq<char>>,
)
    requires
        bound_to_leaf(entries, taken),
        path_is_prefix(taken, path),
        taken.len() < path.len(),
    ensures
        insert_at(entries, path, leaf) is None,
    decreases taken.len(),
{
    assert(taken[0] == path.take(taken.len() as int)[0]);
    if taken.len() > 1 {
        lemma_prefix_of_tails(taken, path);
        let inner = entries[taken[0]]->Object_0;
        lemma_insert_blocked(inner, path.skip(1), leaf, taken.skip(1));
    }
}

/// After a leaf that is no object was bound at `path`, every leaf in the
/// tree is either that one, at `path`, or was there before.
pub proof fn lemma_leaf_origin(
    entries: Map<Seq<char>, Json>,
    path: Seq<Seq<char>>,
    leaf: Json,
    other: Seq<Seq<char>>,
)
    requires
        insert_at(entries, path, leaf) is Some,
        !(leaf is Object),
        bound_to_leaf(insert_at(entries, path, leaf).unwrap(), other),
    ensures
        (other == path && lookup(insert_at(entries, path, leaf).unwrap(), other) == Some(leaf))
            || lookup(entries, other) == lookup(insert_at(entries, path, leaf).unwrap(), other),
    decreases path.len(),
{
    if other[0] == path[0] {
        if path.len() == 1 {
            if other.len() == 1 {
                assert(other =~= path);
            }
        } else if other.len() > 1 {
            let inner = slot(entries, path[0])->Object_0;
            lemma_leaf_origin(inner, path.skip(1), leaf, other.skip(1));
            if other.skip(1) == path.skip(1) {
                assert(other =~= seq![other[0]] + other.skip(1));
                assert(path =~= seq![path[0]] + path.skip(1));
            }
        }
    }
}

/// When a leaf cannot be bound at a path, a proper initial part of that
/// path is bound to a leaf.
pub proof fn lemma_conflict_witness(entries: Map<Seq<char>, Json>, path: Seq<Seq<char>>, leaf: Json)
    requires
        path.len() > 0,
        insert_at(entries, path, leaf) is None,
    ensures
        exists|n: int| 0 < n < path.len() && bound_to_leaf(entries, #[trigger] path.take(n)),
    decreases path.len(),
{
    match slot(entries, path[0]) {
        Json::Object(inner) => {
            if !entries.contains_key(path[0]) {
                lemma_insert_into_empty(path.skip(1), leaf);
            }
            lemma_conflict_witness(inner, path.skip(1), leaf);
            let m = choose|m: int|
                0 < m < path.skip(1).len() && bound_to_leaf(inner, #[trigger] path.skip(1).take(m));
            assert(path.take(m + 1).skip(1) =~= path.skip(1).take(m));
            assert(bound_to_leaf(entries, path.take(m + 1)));
        },
        _ => {
            assert(path.take(1).len() == 1);
            assert(bound_to_leaf(entries, path.take(1)));
        },
    }
}

/// The leaf inferred from a raw value is never an array or an object.
pub proof fn lemma_leaf_is_scalar(raw: Seq<char>)
    requires
        binding_of(raw) is Some,
    ensures
        leaf_for(raw).is_scalar(),
        path_of(raw).len() > 0,
{
    reveal_with_fuel(crate::text::segments, 1);
}

/// A sequence of arguments that builds a tree consists of well-formed
/// arguments, and each of its initial parts builds a tree too.
pub proof fn lemma_built_means_well_formed(raws: Seq<Seq<char>>)
    requires
        tree_of(raws) is Ok,
    ensures
        all_well_formed(raws),
        forall|n: int| 0 <= n <= raws.len() ==> (#[trigger] tree_of(raws.take(n))) is Ok,
    decreases raws.len(),
{
    if raws.len() > 0 {
        let front = raws.drop_last();
        lemma_built_means_well_formed(front);
        assert forall|i: int| 0 <= i < raws.len() implies binding_of(#[trigger] raws[i]) is Some by {
            if i < raws.len() - 1 {
                assert(raws[i] == front[i]);
            }
        }
        assert forall|n: int| 0 <= n <= raws.len() implies (#[trigger] tree_of(raws.take(n))) is Ok by {
            if n < raws.len() {
                assert(raws.take(n) =~= front.take(n));
            } else {
                assert(raws.take(n) =~= raws);
            }
        }
    } else {
        assert forall|n: int| 0 <= n <= raws.len() implies (#[trigger] tree_of(raws.take(n))) is Ok by {
            assert(raws.take(n) =~= raws);
        }
    }
}

/// The value of an argument is found at its key path in the finished
/// tree, unless a later argument wrote to that path or to an initial part
/// of it.
pub proof fn lemma_final_binding(raws: Seq<Seq<char>>, j: int)
    requires
        tree_of(raws) is Ok,
        0 <= j < raws.len(),
        forall|k: int|
            j < k < raws.len() ==> !path_is_prefix(path_of(#[trigger] raws[k]), path_of(raws[j])),
    ensures
        binding_of(raws[j]) is Some,
        lookup(built_tree(raws), path_of(raws[j])) == Some(leaf_for(raws[j])),
    decreases raws.len(),
{
    lemma_built_means_well_formed(raws);
    let front = raws.drop_last();
    let before = built_tree(front);
    let path = path_of(raws.last());
    let leaf = leaf_for(raws.last());
    assert(insert_at(before, path, leaf) == Some(built_tree(raws)));
    if j == raws.len() - 1 {
        lemma_lookup_inserted(before, path, leaf);
    } else {
        assert(front[j] == raws[j]);
        assert forall|k: int| j < k < front.len() implies !path_is_prefix(
            path_of(#[trigger] front[k]),
            path_of(front[j]),
        ) by {
            assert(front[k] == raws[k]);
        }
        lemma_final_binding(front, j);
        lemma_leaf_is_scalar(raws[j]);
        let mine = path_of(raws[j]);
        assert(!path_is_prefix(path, mine)) by {
            assert(raws[raws.len() - 1] == raws.last());
        }
        if path_is_prefix(mine, path) {
            if mine.len() == path.len() {
                assert(path.take(mine.len() as int) =~= path);
                assert(mine.take(path.len() as int) =~= mine);
            } else {
                lemma_insert_blocked(before, path, leaf, mine);
            }
        }
        lemma_lookup_elsewhere(before, path, leaf, mine);
    }
}

/// Arguments whose key paths do not run through one another always build
/// a tree, and every leaf of that tree is the value of one of them, at
/// its key path.
pub proof fn lemma_prefix_free_builds(raws: Seq<Seq<char>>)
    requires
        all_well_formed(raws),
        prefix_free(raws),
    ensures
        tree_of(raws) is Ok,
        forall|q: Seq<Seq<char>>| #[trigger]
            bound_to_leaf(built_tree(raws), q) ==> exists|i: int|
                0 <= i < raws.len() && path_of(#[trigger] raws[i]) == q && lookup(
                    built_tree(raws),
                    q,
                ) == Some(leaf_for(raws[i])),
    decreases raws.len(),
{
    if raws.len() > 0 {
        let front = raws.drop_last();
        let last = raws.len() - 1;
        assert forall|i: int| 0 <= i < front.len() implies binding_of(#[trigger] front[i]) is Some by {
            assert(front[i] == raws[i]);
        }
        assert forall|i: int, j: int|
            0 <= i < front.len() && 0 <= j < front.len() && i != j implies !path_is_prefix(
            path_of(#[trigger] front[i]),
            path_of(#[trigger] front[j]),
        ) by {
            assert(front[i] == raws[i]);
            assert(front[j] == raws[j]);
        }
        lemma_prefix_free_builds(front);
        let before = built_tree(front);
        assert(binding_of(raws[last]) is Some);
        let path = path_of(raws.last());
        let leaf = leaf_for(raws.last());
        lemma_leaf_is_scalar(raws.last());
        if insert_at(before, path, leaf) is None {
            lemma_conflict_witness(before, path, leaf);
            let n = choose|n: int| 0 < n < path.len() && bound_to_leaf(before, #[trigger] path.take(n));
            let taken = path.take(n);
            let i = choose|i: int|
                0 <= i < front.len() && path_of(#[trigger] front[i]) == taken && lookup(before, taken)
                    == Some(leaf_for(front[i]));
            assert(front[i] == raws[i]);
            assert(path.take(taken.len() as int) =~= taken);
            assert(path_is_prefix(path_of(raws[i]), path_of(raws[last])));
            assert(false);
        }
        let after = built_tree(raws);
        assert(insert_at(before, path, leaf) == Some(after));
        assert forall|q: Seq<Seq<char>>| #[trigger] bound_to_leaf(after, q) implies exists|i: int|
            0 <= i < raws.len() && path_of(#[trigger] raws[i]) == q && lookup(after, q) == Some(
                leaf_for(raws[i]),
            ) by {
            lemma_leaf_origin(before, path, leaf, q);
            if q == path && lookup(after, q) == Some(leaf) {
                assert(path_of(raws[last]) == q);
            } else {
                assert(bound_to_leaf(before, q));
                let i = choose|i: int|
                    0 <= i < front.len() && path_of(#[trigger] front[i]) == q && lookup(before, q)
                        == Some(leaf_for(front[i]));
                assert(front[i] == raws[i]);
            }
        }
    }
}

/// Unique keys: when no key path runs through another, the tree holds at
/// each argument's key path exactly the leaf inferred from that argument's
/// value, and holds no other leaf.
pub proof fn lemma_unique_keys_tree(raws: Seq<Seq<char>>)
    requires
        all_well_formed(raws),
        prefix_free(raws),
    ensures
        tree_of(raws) is Ok,
        forall|i: int|
            0 <= i < raws.len() ==> lookup(built_tree(raws), path_of(#[trigger] raws[i]))
                == Some(leaf_for(raws[i])),
        forall|q: Seq<Seq<char>>| #[trigger]
            bound_to_leaf(built_tree(raws), q) ==> exists|i: int|
                0 <= i < raws.len() && path_of(#[trigger] raws[i]) == q,
{
    lemma_prefix_free_builds(raws);
    assert forall|i: int| 0 <= i < raws.len() implies lookup(
        built_tree(raws),
        path_of(#[trigger] raws[i]),
    ) == Some(leaf_for(raws[i])) by {
        lemma_final_binding(raws, i);
    }
    assert forall|q: Seq<Seq<char>>| #[trigger] bound_to_leaf(built_tree(raws), q) implies exists|
        i: int,
    | 0 <= i < raws.len() && path_of(#[trigger] raws[i]) == q by {
        let i = choose|i: int|
            0 <= i < raws.len() && path_of(#[trigger] raws[i]) == q && lookup(built_tree(raws), q)
                == Some(leaf_for(raws[i]));
        assert(path_of(raws[i]) == q);
    }
}

/// Last write wins: of two arguments with the same key path, the tree
/// holds the value of the later one, provided no argument after it writes
/// to that path or to an initial part of it.
pub proof fn lemma_last_write_wins(raws: Seq<Seq<char>>, i: int, j: int)
    requires
        tree_of(raws) is Ok,
        0 <= i < j < raws.len(),
        path_of(raws[i]) == path_of(raws[j]),
        forall|k: int|
            j < k < raws.len() ==> !path_is_prefix(path_of(#[trigger] raws[k]), path_of(raws[j])),
    ensures
        lookup(built_tree(raws), path_of(raws[i])) == Some(leaf_for(raws[j])),
{
    lemma_final_binding(raws, j);
}

/// An argument is malformed exactly when it has no separator or its key
/// has an empty segment; so among arguments whose keys have no empty
/// segment, the malformed ones are those without a separator.
pub proof fn lemma_malformed_exactly(raw: Seq<char>)
    ensures
        binding_of(raw) is None <==> pair_of(raw) is None || !no_empty_segment(
            key_segments(pair_of(raw).unwrap().0),
        ),
{
}

/// A key that can stand alone: it is not empty and holds none of `=`,
/// `:` and `.`.
pub open spec fn plain_key(key: Seq<char>) -> bool {
    key.len() > 0 && forall|i: int|
        0 <= i < key.len() ==> (#[trigger] key[i]) != '=' && key[i] != ':' && key[i] != '.'
}

/// The raw argument `key=value`.
pub open spec fn raw_pair(key: Seq<char>, value: Seq<char>) -> Seq<char> {
    key + seq!['='] + value
}

/// One argument `key=value` with a plain key builds the object that
/// binds the key to the leaf inferred from the value, and nothing else.
pub proof fn lemma_single_pair_tree(key: Seq<char>, value: Seq<char>)
    requires
        plain_key(key),
    ensures
        tree_of(seq![raw_pair(key, value)]) == Ok::<Map<Seq<char>, Json>, (int, BuildFailure)>(
            no_entries().insert(key, inferred_leaf(value)),
        ),
        lookup(built_tree(seq![raw_pair(key, value)]), seq![key]) == Some(inferred_leaf(value)),
{
    let raw = raw_pair(key, value);
    let seps = pair_separators();
    assert(seps.contains('=')) by {
        assert(seps[0] == '=');
    }
    assert forall|j: int| 0 <= j < key.len() implies !seps.contains(#[trigger] raw[j]) by {
        assert(raw[j] == key[j]);
    }
    assert(raw[key.len() as int] == '=');
    lemma_first_separator_is(raw, seps, key.len() as int);
    assert(raw.take(key.len() as int) =~= key);
    assert(raw.skip(key.len() as int + 1) =~= value);
    assert(pair_of(raw) == Some((key, value)));
    assert forall|j: int| 0 <= j < key.len() implies !seq!['.'].contains(#[trigger] key[j]) by {}
    lemma_first_separator_is(key, seq!['.'], key.len() as int);
    assert(key_segments(key) =~= seq![key]);
    assert(binding_of(raw) == Some((seq![key], inferred_leaf(value))));
    let raws = seq![raw];
    assert(raws.drop_last() =~= Seq::<Seq<char>>::empty());
    assert(raws.last() == raw);
    assert(tree_of(raws.drop_last()) == Ok::<Map<Seq<char>, Json>, (int, BuildFailure)>(
        no_entries(),
    ));
}

/// Inferring again follows the reader. From any text that the JSON
/// reader reads as a scalar, that scalar is inferred, in kind and value;
/// so the argument `key=text` binds the key to that scalar. A scalar leaf
/// is therefore inferred again unchanged from every text that the reader
/// reads back as it.
pub proof fn lemma_inferring_again(key: Seq<char>, text: Seq<char>, scalar: Json)
    requires
        plain_key(key),
        scalar.is_scalar(),
    ensures
        parsed_json(text) == Some(scalar) ==> inferred_leaf(text) == scalar && lookup(
            built_tree(seq![raw_pair(key, text)]),
            seq![key],
        ) == Some(scalar),
{
    lemma_single_pair_tree(key, text);
}

} // verus!
