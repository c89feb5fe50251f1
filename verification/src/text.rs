//! Searching and cutting character sequences.
//!
//! The message grammar is stated over `Seq<char>`: where a separator first
//! occurs, what lies on either side of it, and the pieces between all of its
//! occurrences. The executable functions work on `&[char]` and are proved
//! against those definitions.

use vstd::prelude::*;
use vstd::slice::slice_subrange;

verus! {

/// `pat` stands in `s` at offset `i`.
pub open spec fn occurs_at(s: Seq<char>, pat: Seq<char>, i: int) -> bool {
    &&& 0 <= i
    &&& i + pat.len() <= s.len()
    &&& s.subrange(i, i + pat.len()) =~= pat
}

/// `pat` stands in `s` at offset `i` and at no smaller offset.
pub open spec fn first_at(s: Seq<char>, pat: Seq<char>, i: int) -> bool {
    &&& occurs_at(s, pat, i)
    &&& forall|j: int| 0 <= j < i ==> !occurs_at(s, pat, j)
}

/// `pat` stands nowhere in `s`.
pub open spec fn absent(s: Seq<char>, pat: Seq<char>) -> bool {
    forall|j: int| !occurs_at(s, pat, j)
}

/// The smallest offset at which `pat` stands in `s`, if it stands anywhere.
pub open spec fn first_index(s: Seq<char>, pat: Seq<char>) -> Option<int> {
    if exists|i: int| first_at(s, pat, i) {
        Some(choose|i: int| first_at(s, pat, i))
    } else {
        None
    }
}

/// What lies before and after the first occurrence of `pat` in `s`.
pub open spec fn halves(s: Seq<char>, pat: Seq<char>) -> Option<(Seq<char>, Seq<char>)> {
    match first_index(s, pat) {
        Some(i) => Some((s.take(i), s.skip(i + pat.len()))),
        None => None,
    }
}

/// The pieces of `s` between the occurrences of `pat`, found from left to
/// right. A sequence without `pat` is its own single piece, the empty
/// sequence included; so is any sequence where `pat` is empty.
pub open spec fn pieces(s: Seq<char>, pat: Seq<char>) -> Seq<Seq<char>>
    decreases s.len(),
    via pieces_decreases
{
    match first_index(s, pat) {
        Some(i) => if pat.len() > 0 {
            seq![s.take(i)] + pieces(s.skip(i + pat.len()), pat)
        } else {
            seq![s]
        },
        None => seq![s],
    }
}

#[via_fn]
proof fn pieces_decreases(s: Seq<char>, pat: Seq<char>) {
    lemma_first_index(s, pat);
}

/// An occurrence that has none before it is the one `first_index` names.
pub proof fn lemma_first_index_some(s: Seq<char>, pat: Seq<char>, i: int)
    requires
        first_at(s, pat, i),
    ensures
        first_index(s, pat) == Some(i),
{
}

/// Every occurrence has a first occurrence at or before it.
pub proof fn lemma_first_exists(s: Seq<char>, pat: Seq<char>, i: int)
    requires
        occurs_at(s, pat, i),
    ensures
        exists|k: int| 0 <= k <= i && first_at(s, pat, k),
    decreases i,
{
    if exists|j: int| 0 <= j < i && occurs_at(s, pat, j) {
        let j = choose|j: int| 0 <= j < i && occurs_at(s, pat, j);
        lemma_first_exists(s, pat, j);
    } else {
        assert(0 <= i <= i && first_at(s, pat, i));
    }
}

/// What `first_index` returns: the first occurrence, or `None` exactly where
/// there is no occurrence at all.
pub proof fn lemma_first_index(s: Seq<char>, pat: Seq<char>)
    ensures
        match first_index(s, pat) {
            Some(i) => first_at(s, pat, i),
            None => absent(s, pat),
        },
{
    if first_index(s, pat) is None {
        assert forall|j: int| !occurs_at(s, pat, j) by {
            if occurs_at(s, pat, j) {
                lemma_first_exists(s, pat, j);
            }
        }
    }
}

/// Where `pat` is absent, `first_index` is `None`.
pub proof fn lemma_first_index_none(s: Seq<char>, pat: Seq<char>)
    requires
        absent(s, pat),
    ensures
        first_index(s, pat) is None,
{
    if first_index(s, pat) is Some {
        lemma_first_index(s, pat);
    }
}

/// The character `c` is nowhere in `s`.
pub open spec fn free_of(s: Seq<char>, c: char) -> bool {
    forall|i: int| 0 <= i < s.len() ==> s[i] != c
}

/// A one-character separator stands where its character stands.
pub proof fn lemma_occurs_at_char(s: Seq<char>, c: char, i: int)
    ensures
        occurs_at(s, seq![c], i) <==> 0 <= i < s.len() && s[i] == c,
{
    if 0 <= i < s.len() {
        assert(seq![c][0] == c);
    }
}

/// A sequence cut at a separator character that its first part is free of:
/// the cut gives back the two parts.
pub proof fn lemma_halves_at_char(a: Seq<char>, c: char, b: Seq<char>)
    requires
        free_of(a, c),
    ensures
        first_index(a + seq![c] + b, seq![c]) == Some(a.len() as int),
        halves(a + seq![c] + b, seq![c]) == Some((a, b)),
{
    let s = a + seq![c] + b;
    let n = a.len() as int;
    lemma_occurs_at_char(s, c, n);
    lemma_first_index_some(s, seq![c], n);
}

/// A sequence free of a character has no place to be cut at it, and is a
/// single piece.
pub proof fn lemma_uncut_by_char(a: Seq<char>, c: char)
    requires
        free_of(a, c),
    ensures
        first_index(a, seq![c]) is None,
        halves(a, seq![c]) is None,
        pieces(a, seq![c]) == seq![a],
{
    assert forall|j: int| !occurs_at(a, seq![c], j) by {
        lemma_occurs_at_char(a, c, j);
    }
    lemma_first_index_none(a, seq![c]);
}

/// The pieces of a sequence whose first part is free of the separator
/// character: that part, then the pieces of what follows the separator.
pub proof fn lemma_pieces_at_char(a: Seq<char>, c: char, b: Seq<char>)
    requires
        free_of(a, c),
    ensures
        pieces(a + seq![c] + b, seq![c]) == seq![a] + pieces(b, seq![c]),
{
    lemma_halves_at_char(a, c, b);
}

/// The items written one after the other with `sep` between them.
pub open spec fn joined(items: Seq<Seq<char>>, sep: Seq<char>) -> Seq<char>
    decreases items.len(),
{
    if items.len() == 0 {
        Seq::empty()
    } else if items.len() == 1 {
        items[0]
    } else {
        items[0] + sep + joined(items.skip(1), sep)
    }
}

/// Every item is free of the character `c`.
pub open spec fn all_free_of(items: Seq<Seq<char>>, c: char) -> bool {
    forall|i: int| 0 <= i < items.len() ==> free_of(#[trigger] items[i], c)
}

/// Cutting undoes joining: the pieces of items joined by a character that
/// none of them holds are the items.
pub proof fn lemma_pieces_of_joined(items: Seq<Seq<char>>, c: char)
    requires
        items.len() > 0,
        all_free_of(items, c),
    ensures
        pieces(joined(items, seq![c]), seq![c]) == items,
    decreases items.len(),
{
    if items.len() == 1 {
        lemma_uncut_by_char(items[0], c);
        assert(seq![items[0]] =~= items);
    } else {
        let rest = items.skip(1);
        assert forall|i: int| 0 <= i < rest.len() implies free_of(#[trigger] rest[i], c) by {
            assert(rest[i] == items[i + 1]);
        }
        lemma_pieces_of_joined(rest, c);
        lemma_pieces_at_char(items[0], c, joined(rest, seq![c]));
        assert(seq![items[0]] + rest =~= items);
    }
}

/// Items that are free of a character stay free of it when they are joined
/// by another character.
pub proof fn lemma_joined_free_of(items: Seq<Seq<char>>, c: char, x: char)
    requires
        all_free_of(items, x),
        c != x,
    ensures
        free_of(joined(items, seq![c]), x),
    decreases items.len(),
{
    if items.len() > 1 {
        let rest = items.skip(1);
        assert forall|i: int| 0 <= i < rest.len() implies free_of(#[trigger] rest[i], x) by {
            assert(rest[i] == items[i + 1]);
        }
        lemma_joined_free_of(rest, c, x);
        assert(free_of(items[0], x));
    } else if items.len() == 1 {
        assert(free_of(items[0], x));
    }
}

/// Whether `pat` stands in `s` at offset `i`.
pub fn matches_at(s: &[char], pat: &[char], i: usize) -> (r: bool)
    ensures
        r == occurs_at(s@, pat@, i as int),
{
    if pat.len() > s.len() || i > s.len() - pat.len() {
        return false;
    }
    let mut k: usize = 0;
    while k < pat.len()
        invariant
            i + pat.len() <= s.len(),
            k <= pat.len(),
            forall|j: int| 0 <= j < k ==> s@[i + j] == #[trigger] pat@[j],
        decreases pat.len() - k,
    {
        if s[i + k] != pat[k] {
            return false;
        }
        k += 1;
    }
    true
}

/// The offset of the first occurrence of `pat` in `s`.
pub fn find(s: &[char], pat: &[char]) -> (r: Option<usize>)
    ensures
        match r {
            Some(i) => first_index(s@, pat@) == Some(i as int),
            None => first_index(s@, pat@) is None,
        },
{
    let mut i: usize = 0;
    while i < s.len()
        invariant
            i <= s.len(),
            forall|j: int| 0 <= j < i ==> !occurs_at(s@, pat@, j),
        decreases s.len() - i,
    {
        if matches_at(s, pat, i) {
            proof {
                lemma_first_index_some(s@, pat@, i as int);
            }
            return Some(i);
        }
        i += 1;
    }
    if matches_at(s, pat, i) {
        proof {
            lemma_first_index_some(s@, pat@, i as int);
        }
        return Some(i);
    }
    proof {
        lemma_first_index_none(s@, pat@);
    }
    None
}

/// Cuts `s` at the first occurrence of `pat`, which belongs to neither half.
pub fn split_once<'a>(s: &'a [char], pat: &[char]) -> (r: Option<(&'a [char], &'a [char])>)
    ensures
        match r {
            Some((a, b)) => halves(s@, pat@) == Some((a@, b@)),
            None => halves(s@, pat@) is None,
        },
{
    match find(s, pat) {
        Some(i) => {
            proof {
                lemma_first_index(s@, pat@);
            }
            let n = s.len();
            let a = slice_subrange(s, 0, i);
            let b = slice_subrange(s, i + pat.len(), n);
            Some((a, b))
        },
        None => None,
    }
}

/// Whether two slices hold the same characters.
pub fn same(a: &[char], b: &[char]) -> (r: bool)
    ensures
        r == (a@ == b@),
{
    if a.len() != b.len() {
        return false;
    }
    let mut i: usize = 0;
    while i < a.len()
        invariant
            a.len() == b.len(),
            i <= a.len(),
            forall|j: int| 0 <= j < i ==> a@[j] == b@[j],
        decreases a.len() - i,
    {
        if a[i] != b[i] {
            return false;
        }
        i += 1;
    }
    assert(a@ =~= b@);
    true
}

/// The characters of a string, in order.
pub fn to_chars(s: &str) -> (v: Vec<char>)
    ensures
        v@ == s@,
{
    broadcast use vstd::string::group_string_axioms;

    let mut v: Vec<char> = Vec::new();
    for c in it: s.chars()
        invariant
            it.seq() == s@,
            v@ == it.seq().take(it.index() as int),
    {
        v.push(c);
    }
    v
}

/// `String::push` appends one character and changes nothing else.
pub assume_specification[ String::push ](s: &mut String, ch: char)
    ensures
        final(s)@ == old(s)@.push(ch),
;

/// The string made of the given characters.
pub fn to_text(chars: &[char]) -> (s: String)
    ensures
        s@ == chars@,
{
    let mut s = String::new();
    let mut i: usize = 0;
    while i < chars.len()
        invariant
            i <= chars.len(),
            s@ == chars@.take(i as int),
        decreases chars.len() - i,
    {
        s.push(chars[i]);
        i += 1;
    }
    s
}

} // verus!
