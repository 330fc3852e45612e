//! The surface syntax: the eight symbols, nesting depth, and balance.

use vstd::prelude::*;

verus! {

/// Whether `c` is one of the eight symbols of the language.
pub open spec fn is_symbol(c: char) -> bool {
    c == '+' || c == '-' || c == '>' || c == '<' || c == '[' || c == ']' || c == ',' || c == '.'
}

/// The source with every character that is not a symbol removed.
pub open spec fn symbols(source: Seq<char>) -> Seq<char> {
    source.filter(|c: char| is_symbol(c))
}

/// What one character adds to the nesting depth.
pub open spec fn bracket_delta(c: char) -> int {
    if c == '[' {
        1
    } else if c == ']' {
        -1
    } else {
        0
    }
}

/// The nesting depth after the first `n` characters of `s`: the number of
/// `[` among them less the number of `]`.
pub open spec fn depth(s: Seq<char>, n: int) -> int
    decreases n,
{
    if n <= 0 {
        0
    } else {
        depth(s, n - 1) + bracket_delta(s[n - 1])
    }
}

/// Every `]` closes an earlier `[`, and every `[` is closed.
pub open spec fn balanced(s: Seq<char>) -> bool {
    &&& forall|n: int| 0 <= n <= s.len() ==> #[trigger] depth(s, n) >= 0
    &&& depth(s, s.len() as int) == 0
}

/// A source that the strict validator accepts: symbols only, and balanced.
pub open spec fn valid_source(s: Seq<char>) -> bool {
    &&& forall|i: int| 0 <= i < s.len() ==> is_symbol(#[trigger] s[i])
    &&& balanced(s)
}

/// The `]` at `j` closes the `[` at `i`: the depth behind `j` is back to
/// what it was in front of `i`, for the first time since `i`.
pub open spec fn paired(s: Seq<char>, i: int, j: int) -> bool {
    &&& 0 <= i < j < s.len()
    &&& s[i] == '['
    &&& s[j] == ']'
    &&& depth(s, j + 1) == depth(s, i)
    &&& forall|k: int| i < k <= j ==> #[trigger] depth(s, k) > depth(s, i)
}

/// The position of the `]` that closes the `[` at `i`.
pub open spec fn close_of(s: Seq<char>, i: int) -> int {
    choose|j: int| paired(s, i, j)
}

/// The position of the `[` that the `]` at `j` closes.
pub open spec fn open_of(s: Seq<char>, j: int) -> int {
    choose|i: int| paired(s, i, j)
}

/// A `[` is closed by at most one `]`: the depth has not been back before
/// the first.
pub proof fn lemma_close_unique(s: Seq<char>, i: int, j1: int, j2: int)
    requires
        paired(s, i, j1),
        paired(s, i, j2),
    ensures
        j1 == j2,
{
}

/// A `]` closes at most one `[`: the later of two would lie inside the loop
/// of the earlier, at a greater depth.
pub proof fn lemma_open_unique(s: Seq<char>, i1: int, i2: int, j: int)
    requires
        paired(s, i1, j),
        paired(s, i2, j),
    ensures
        i1 == i2,
{
}

/// Loops nest: a `[` inside a loop is closed inside that loop.
pub proof fn lemma_pairs_nest(s: Seq<char>, i1: int, j1: int, i2: int, j2: int)
    requires
        paired(s, i1, j1),
        paired(s, i2, j2),
        i1 < i2 < j1,
    ensures
        j2 < j1,
{
}

/// In a balanced sequence every `[` has a `]` that closes it.
///
/// `k` is how far the search has come: the depth has stayed above that of
/// `i` from `i + 1` up to `k`.
pub proof fn lemma_close_exists(s: Seq<char>, i: int, k: int)
    requires
        balanced(s),
        0 <= i < k <= s.len(),
        s[i] == '[',
        forall|m: int| i < m <= k ==> #[trigger] depth(s, m) > depth(s, i),
    ensures
        paired(s, i, close_of(s, i)),
    decreases s.len() - k,
{
    assert(depth(s, k + 1) == depth(s, k) + bracket_delta(s[k]));
    if depth(s, k + 1) == depth(s, i) {
        assert(paired(s, i, k));
    } else {
        lemma_close_exists(s, i, k + 1);
    }
}

/// In a balanced sequence every `]` has a `[` that it closes.
///
/// `k` is how far back the search has come: the depth has stayed above
/// that behind `j` from `k` up to `j`.
pub proof fn lemma_open_exists(s: Seq<char>, j: int, k: int)
    requires
        balanced(s),
        0 <= k <= j < s.len(),
        s[j] == ']',
        forall|m: int| k <= m <= j ==> #[trigger] depth(s, m) > depth(s, j + 1),
    ensures
        paired(s, open_of(s, j), j),
    decreases k,
{
    assert(depth(s, 0) == 0);
    assert(depth(s, k) == depth(s, k - 1) + bracket_delta(s[k - 1]));
    if depth(s, k - 1) == depth(s, j + 1) {
        assert(paired(s, k - 1, j));
    } else {
        lemma_open_exists(s, j, k - 1);
    }
}

/// Removing comments from a source that has none changes nothing.
pub proof fn lemma_symbols_of_symbols_only(s: Seq<char>)
    requires
        forall|i: int| 0 <= i < s.len() ==> is_symbol(#[trigger] s[i]),
    ensures
        symbols(s) == s,
    decreases s.len(),
{
    reveal(Seq::filter);
    if s.len() > 0 {
        lemma_symbols_of_symbols_only(s.drop_last());
    }
}

/// Removing comments twice removes no more than removing them once.
pub proof fn lemma_symbols_idempotent(s: Seq<char>)
    ensures
        symbols(symbols(s)) == symbols(s),
{
    let pred = |c: char| is_symbol(c);
    assert forall|i: int| 0 <= i < symbols(s).len() implies is_symbol(#[trigger] symbols(s)[i]) by {
        s.lemma_filter_pred(pred, i);
    }
    lemma_symbols_of_symbols_only(symbols(s));
}

/// What the strict validator accepts, the compiler accepts.
pub proof fn lemma_valid_source_is_balanced(s: Seq<char>)
    requires
        valid_source(s),
    ensures
        balanced(symbols(s)),
{
    lemma_symbols_of_symbols_only(s);
}

} // verus!
