//! Character-level helpers: strings as sequences of characters, and the search
//! for the first place where one sequence occurs inside another.
//!
//! All offsets in this crate count characters, never bytes, so no operation can
//! cut a multi-byte character in two.

use vstd::prelude::*;

verus! {

broadcast use vstd::string::group_string_axioms;

/// `chunk` occurs in `text` starting at character `at`.
pub open spec fn occurs_at(text: Seq<char>, chunk: Seq<char>, at: int) -> bool {
    &&& 0 <= at
    &&& at + chunk.len() <= text.len()
    &&& text.subrange(at, at + chunk.len()) == chunk
}

/// `at` is the leftmost place where `chunk` occurs in `text`.
pub open spec fn is_first_match(text: Seq<char>, chunk: Seq<char>, at: int) -> bool {
    &&& occurs_at(text, chunk, at)
    &&& forall|j: int| 0 <= j < at ==> !occurs_at(text, chunk, j)
}

/// The leftmost place where `chunk` occurs in `text`, if it occurs at all.
pub open spec fn first_match(text: Seq<char>, chunk: Seq<char>) -> Option<int> {
    if exists|at: int| is_first_match(text, chunk, at) {
        Some(choose|at: int| is_first_match(text, chunk, at))
    } else {
        None
    }
}

/// The leftmost match is unique: whoever exhibits one knows `first_match`.
pub proof fn lemma_first_match_is(text: Seq<char>, chunk: Seq<char>, at: int)
    requires
        is_first_match(text, chunk, at),
    ensures
        first_match(text, chunk) == Some(at),
{
    let found = choose|a: int| is_first_match(text, chunk, a);
    assert(is_first_match(text, chunk, found));
    if found < at {
        assert(!occurs_at(text, chunk, found));
    }
    if at < found {
        assert(!occurs_at(text, chunk, at));
    }
}

/// Below any occurrence there is a leftmost one.
pub proof fn lemma_leftmost_exists(text: Seq<char>, chunk: Seq<char>, at: int)
    requires
        occurs_at(text, chunk, at),
    ensures
        first_match(text, chunk) is Some,
        first_match(text, chunk)->0 <= at,
        is_first_match(text, chunk, first_match(text, chunk)->0),
    decreases at,
{
    if exists|j: int| 0 <= j < at && occurs_at(text, chunk, j) {
        let j = choose|j: int| 0 <= j < at && occurs_at(text, chunk, j);
        lemma_leftmost_exists(text, chunk, j);
    } else {
        assert(is_first_match(text, chunk, at));
        lemma_first_match_is(text, chunk, at);
    }
}

/// `first_match` is `None` exactly when `chunk` occurs nowhere in `text`, and
/// otherwise names an occurrence with none to its left.
pub proof fn lemma_first_match_spec(text: Seq<char>, chunk: Seq<char>)
    ensures
        first_match(text, chunk) is None <==> forall|at: int| !occurs_at(text, chunk, at),
        first_match(text, chunk) matches Some(at) ==> is_first_match(text, chunk, at),
{
    if exists|at: int| occurs_at(text, chunk, at) {
        let at = choose|at: int| occurs_at(text, chunk, at);
        lemma_leftmost_exists(text, chunk, at);
    }
}

/// The characters of `s`, in order.
pub fn to_chars(s: &str) -> (v: Vec<char>)
    ensures
        v@ == s@,
{
    let mut v: Vec<char> = Vec::new();
    for c in it: s.chars()
        invariant
            it.seq() == s@,
            v@ == s@.take(it.index() as int),
    {
        v.push(c);
    }
    v
}

/// Whether `chunk` occurs in `text` at `at`, compared character by character.
fn matches_at(text: &Vec<char>, chunk: &Vec<char>, at: usize) -> (hit: bool)
    requires
        at + chunk@.len() <= text@.len(),
    ensures
        hit == occurs_at(text@, chunk@, at as int),
{
    let n: usize = text.len();
    let m: usize = chunk.len();
    let mut k: usize = 0;
    while k < m
        invariant
            n == text@.len(),
            m == chunk@.len(),
            k <= m,
            at + m <= n,
            forall|j: int| 0 <= j < k ==> text@[at + j] == chunk@[j],
        decreases m - k,
    {
        if text[at + k] != chunk[k] {
            assert(text@.subrange(at as int, at + m)[k as int] == text@[at + k]);
            return false;
        }
        k += 1;
    }
    assert(text@.subrange(at as int, at + m) =~= chunk@);
    true
}

/// Searches `text` from the left for `chunk`. An empty `chunk` occurs at 0.
pub fn find_chunk(text: &Vec<char>, chunk: &Vec<char>) -> (found: Option<usize>)
    ensures
        first_match(text@, chunk@) == match found {
            Some(at) => Some(at as int),
            None => None,
        },
{
    let n: usize = text.len();
    let m: usize = chunk.len();
    if m > n {
        proof {
            lemma_first_match_spec(text@, chunk@);
        }
        return None;
    }
    let last: usize = n - m;
    let mut at: usize = 0;
    loop
        invariant
            n == text@.len(),
            m == chunk@.len(),
            last == n - m,
            at <= last,
            forall|j: int| 0 <= j < at ==> !occurs_at(text@, chunk@, j),
        decreases last - at,
    {
        if matches_at(text, chunk, at) {
            proof {
                lemma_first_match_is(text@, chunk@, at as int);
            }
            return Some(at);
        }
        if at == last {
            proof {
                lemma_first_match_spec(text@, chunk@);
            }
            return None;
        }
        at += 1;
    }
}

} // verus!
