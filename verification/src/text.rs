//! Character-level helpers on strings: scanning for separators, prefixes,
//! joining and decimal rendering. Everything is stated over `Seq<char>`.

use vstd::prelude::*;
use vstd::string::*;

verus! {

/// Index of the first character of `s` that occurs in `seps`, or `s.len()`
/// when no character of `s` does.
pub open spec fn first_separator(s: Seq<char>, seps: Seq<char>) -> int
    decreases s.len(),
{
    if s.len() == 0 {
        0
    } else if seps.contains(s[0]) {
        0
    } else {
        1 + first_separator(s.drop_first(), seps)
    }
}

/// `first_separator` is the least index holding a separator: everything
/// before it is free of separators, and it is in range exactly when a
/// separator exists.
pub proof fn lemma_first_separator(s: Seq<char>, seps: Seq<char>)
    ensures
        0 <= first_separator(s, seps) <= s.len(),
        forall|j: int| 0 <= j < first_separator(s, seps) ==> !seps.contains(#[trigger] s[j]),
        first_separator(s, seps) < s.len() ==> seps.contains(s[first_separator(s, seps)]),
    decreases s.len(),
{
    if s.len() > 0 && !seps.contains(s[0]) {
        let rest = s.drop_first();
        lemma_first_separator(rest, seps);
        assert forall|j: int| 0 <= j < first_separator(s, seps) implies !seps.contains(
            #[trigger] s[j],
        ) by {
            if j > 0 {
                assert(s[j] == rest[j - 1]);
            }
        }
        if first_separator(s, seps) < s.len() {
            assert(s[first_separator(s, seps)] == rest[first_separator(rest, seps)]);
        }
    }
}

/// An index that holds a separator and has none before it is the first
/// separator.
pub proof fn lemma_first_separator_is(s: Seq<char>, seps: Seq<char>, i: int)
    requires
        0 <= i <= s.len(),
        forall|j: int| 0 <= j < i ==> !seps.contains(#[trigger] s[j]),
        i < s.len() ==> seps.contains(s[i]),
    ensures
        first_separator(s, seps) == i,
{
    lemma_first_separator(s, seps);
    let f = first_separator(s, seps);
    if f < i {
        assert(!seps.contains(s[f]));
    } else if i < f {
        assert(!seps.contains(s[i]));
    }
}

/// `s` cut at its first separator: the part before it and the part after
/// it, the separator itself dropped. `None` when `s` holds no separator.
pub open spec fn split_at_first(s: Seq<char>, seps: Seq<char>) -> Option<(Seq<char>, Seq<char>)> {
    let i = first_separator(s, seps);
    if i < s.len() {
        Some((s.take(i), s.skip(i + 1)))
    } else {
        None
    }
}

/// The pieces of `s` between occurrences of `sep`, in order. A string
/// without `sep` is its own single piece; neighbouring separators give
/// empty pieces.
pub open spec fn segments(s: Seq<char>, sep: char) -> Seq<Seq<char>>
    decreases s.len(),
{
    let i = first_separator(s, seq![sep]);
    if 0 <= i < s.len() {
        seq![s.take(i)] + segments(s.skip(i + 1), sep)
    } else {
        seq![s]
    }
}

/// Whether `s` begins with `prefix`.
pub open spec fn has_prefix(s: Seq<char>, prefix: Seq<char>) -> bool {
    prefix.len() <= s.len() && s.take(prefix.len() as int) == prefix
}

/// The items of `parts` written one after another with `sep` between
/// neighbours.
pub open spec fn joined(parts: Seq<Seq<char>>, sep: Seq<char>) -> Seq<char>
    decreases parts.len(),
{
    if parts.len() == 0 {
        Seq::empty()
    } else if parts.len() == 1 {
        parts[0]
    } else {
        joined(parts.drop_last(), sep) + sep + parts.last()
    }
}

/// The character that writes the digit `d`.
pub open spec fn digit_char(d: nat) -> char {
    if d == 0 {
        '0'
    } else if d == 1 {
        '1'
    } else if d == 2 {
        '2'
    } else if d == 3 {
        '3'
    } else if d == 4 {
        '4'
    } else if d == 5 {
        '5'
    } else if d == 6 {
        '6'
    } else if d == 7 {
        '7'
    } else if d == 8 {
        '8'
    } else {
        '9'
    }
}

/// `n` written in base ten without leading zeros.
pub open spec fn decimal_digits(n: nat) -> Seq<char>
    decreases n,
{
    if n < 10 {
        seq![digit_char(n)]
    } else {
        decimal_digits(n / 10).push(digit_char(n % 10))
    }
}

/// The views of a sequence of strings.
pub open spec fn string_views(items: Seq<String>) -> Seq<Seq<char>> {
    items.map_values(|s: String| s@)
}

/// The views of a sequence of string slices.
pub open spec fn str_views(items: Seq<&str>) -> Seq<Seq<char>> {
    items.map_values(|s: &str| s@)
}

/// What `str::to_lowercase` returns for a text.
pub uninterp spec fn lowercased(text: Seq<char>) -> Seq<char>;

/// What `str::to_uppercase` returns for a text.
pub uninterp spec fn uppercased(text: Seq<char>) -> Seq<char>;

/// `str::to_lowercase`: the lowercase equivalent of `text` under the
/// Unicode case mapping. The result depends on the text alone.
#[verifier::external_body]
pub(crate) fn to_lowercase(text: &str) -> (lower: String)
    ensures
        lower@ == lowercased(text@),
{
    text.to_lowercase()
}

/// `str::to_uppercase`: the uppercase equivalent of `text` under the
/// Unicode case mapping. The result depends on the text alone.
#[verifier::external_body]
pub(crate) fn to_uppercase(text: &str) -> (upper: String)
    ensures
        upper@ == uppercased(text@),
{
    text.to_uppercase()
}

/// The characters of `s` as a vector, for constant-time indexing.
pub fn chars_of(s: &str) -> (out: Vec<char>)
    ensures
        out@ == s@,
{
    let mut out: Vec<char> = Vec::new();
    for c in it: s.chars()
        invariant
            out@ == s@.take(it.index() as int),
            it.seq() == s@,
    {
        out.push(c);
    }
    out
}

/// Whether `c` is one of `seps`.
pub fn is_one_of(seps: &[char], c: char) -> (found: bool)
    ensures
        found == seps@.contains(c),
{
    let mut i: usize = 0;
    while i < seps.len()
        invariant
            i <= seps.len(),
            forall|j: int| 0 <= j < i ==> seps@[j] != c,
        decreases seps.len() - i,
    {
        if seps[i] == c {
            return true;
        }
        i += 1;
    }
    false
}

/// Position of the first separator at or after `from`, or `chars.len()`
/// when there is none.
pub fn find_separator(chars: &[char], from: usize, seps: &[char]) -> (at: usize)
    requires
        from <= chars.len(),
    ensures
        at == from + first_separator(chars@.skip(from as int), seps@),
        from <= at <= chars.len(),
{
    let mut i: usize = from;
    while i < chars.len()
        invariant
            from <= i <= chars.len(),
            forall|j: int| from <= j < i ==> !seps@.contains(#[trigger] chars@[j]),
        decreases chars.len() - i,
    {
        if is_one_of(seps, chars[i]) {
            proof {
                lemma_first_separator_is(chars@.skip(from as int), seps@, i - from);
            }
            return i;
        }
        i += 1;
    }
    proof {
        lemma_first_separator_is(chars@.skip(from as int), seps@, i - from);
    }
    i
}

/// The pieces of `s` between occurrences of `sep`, in order.
pub fn split_segments(s: &str, sep: char) -> (pieces: Vec<String>)
    ensures
        string_views(pieces@) == segments(s@, sep),
{
    let chars = chars_of(s);
    let mut seps: Vec<char> = Vec::new();
    seps.push(sep);
    assert(seps@ =~= seq![sep]);
    let mut pieces: Vec<String> = Vec::new();
    let mut start: usize = 0;
    assert(s@.skip(0) =~= s@);
    assert(string_views(pieces@) + segments(s@, sep) =~= segments(s@, sep));
    loop
        invariant_except_break
            segments(s@, sep) == string_views(pieces@) + segments(s@.skip(start as int), sep),
        invariant
            start <= chars.len(),
            chars@ == s@,
            seps@ == seq![sep],
        ensures
            string_views(pieces@) == segments(s@, sep),
        decreases chars.len() - start,
    {
        let ghost rest = s@.skip(start as int);
        let ghost done = string_views(pieces@);
        let at: usize = find_separator(chars.as_slice(), start, seps.as_slice());
        if at < chars.len() {
            let piece = s.substring_char(start, at);
            pieces.push(String::from_str(piece));
            proof {
                assert(rest.take(at - start) =~= piece@);
                assert(rest.skip(at - start + 1) =~= s@.skip(at + 1));
                assert(string_views(pieces@) =~= done.push(piece@));
                assert(done + (seq![piece@] + segments(s@.skip(at + 1), sep)) =~= done.push(piece@)
                    + segments(s@.skip(at + 1), sep));
            }
            start = at + 1;
        } else {
            let piece = s.substring_char(start, chars.len());
            pieces.push(String::from_str(piece));
            proof {
                assert(piece@ =~= rest);
                assert(string_views(pieces@) =~= done.push(piece@));
                assert(done + seq![rest] =~= done.push(rest));
            }
            break;
        }
    }
    pieces
}

/// Whether `s` begins with `prefix`.
pub fn starts_with(s: &str, prefix: &str) -> (yes: bool)
    ensures
        yes == has_prefix(s@, prefix@),
{
    let text = chars_of(s);
    let head = chars_of(prefix);
    if head.len() > text.len() {
        return false;
    }
    let mut i: usize = 0;
    while i < head.len()
        invariant
            i <= head.len() <= text.len(),
            head@ == prefix@,
            text@ == s@,
            forall|j: int| 0 <= j < i ==> text@[j] == head@[j],
        decreases head.len() - i,
    {
        if text[i] != head[i] {
            assert(s@.take(prefix@.len() as int)[i as int] != prefix@[i as int]);
            return false;
        }
        i += 1;
    }
    assert(s@.take(prefix@.len() as int) =~= prefix@);
    true
}

/// Whether two strings hold the same characters.
pub fn same_text(a: &str, b: &str) -> (same: bool)
    ensures
        same == (a@ == b@),
{
    let left = chars_of(a);
    let right = chars_of(b);
    if left.len() != right.len() {
        return false;
    }
    let mut i: usize = 0;
    while i < left.len()
        invariant
            i <= left.len(),
            left.len() == right.len(),
            left@ == a@,
            right@ == b@,
            forall|j: int| 0 <= j < i ==> left@[j] == right@[j],
        decreases left.len() - i,
    {
        if left[i] != right[i] {
            return false;
        }
        i += 1;
    }
    assert(a@ =~= b@);
    true
}

/// The strings of `parts` joined with `sep` between neighbours.
pub fn join(parts: &Vec<String>, sep: &str) -> (out: String)
    ensures
        out@ == joined(string_views(parts@), sep@),
{
    let mut out = String::new();
    let mut i: usize = 0;
    while i < parts.len()
        invariant
            i <= parts.len(),
            out@ == joined(string_views(parts@).take(i as int), sep@),
        decreases parts.len() - i,
    {
        let ghost before = string_views(parts@).take(i as int);
        let ghost after = string_views(parts@).take(i + 1);
        proof {
            assert(after.drop_last() =~= before);
            assert(after.last() == parts@[i as int]@);
        }
        if i > 0 {
            out.append(sep);
        }
        out.append(parts[i].as_str());
        proof {
            if i == 0 {
                assert(out@ =~= parts@[0]@);
            }
        }
        i += 1;
    }
    proof {
        assert(string_views(parts@).take(parts.len() as int) =~= string_views(parts@));
    }
    out
}

/// The one-character string that writes the digit `d`.
fn digit_str(d: usize) -> (out: &'static str)
    requires
        d < 10,
    ensures
        out@ == seq![digit_char(d as nat)],
{
    proof {
        reveal_strlit("0");
        reveal_strlit("1");
        reveal_strlit("2");
        reveal_strlit("3");
        reveal_strlit("4");
        reveal_strlit("5");
        reveal_strlit("6");
        reveal_strlit("7");
        reveal_strlit("8");
        reveal_strlit("9");
    }
    let out = if d == 0 {
        "0"
    } else if d == 1 {
        "1"
    } else if d == 2 {
        "2"
    } else if d == 3 {
        "3"
    } else if d == 4 {
        "4"
    } else if d == 5 {
        "5"
    } else if d == 6 {
        "6"
    } else if d == 7 {
        "7"
    } else if d == 8 {
        "8"
    } else {
        "9"
    };
    assert(out@ =~= seq![digit_char(d as nat)]);
    out
}

/// `n` in base ten.
pub fn decimal(n: usize) -> (out: String)
    ensures
        out@ == decimal_digits(n as nat),
    decreases n,
{
    if n < 10 {
        String::from_str(digit_str(n))
    } else {
        let mut out = decimal(n / 10);
        out.append(digit_str(n % 10));
        assert(out@ =~= decimal_digits(n as nat));
        out
    }
}

} // verus!
