//! What the lookups compute, stated over plain sequences of tokens.
//!
//! A token is a `Seq<char>`; a captured command line is a `Seq` of tokens in
//! the order in which they were typed. A vocabulary (the values a key may
//! take, or the candidates of a choice) is a `Set` of tokens: only membership
//! counts, never the order in which the caller wrote it down.

use vstd::prelude::*;

verus! {

/// `i` is the lowest position of `tokens` that holds a member of `wanted`.
pub open spec fn is_first_hit(tokens: Seq<Seq<char>>, wanted: Set<Seq<char>>, i: int) -> bool {
    &&& 0 <= i < tokens.len()
    &&& wanted.contains(tokens[i])
    &&& forall|j: int| 0 <= j < i ==> !wanted.contains(#[trigger] tokens[j])
}

/// The lowest position of `tokens` that holds a member of `wanted`, if any
/// position does.
pub open spec fn first_hit(tokens: Seq<Seq<char>>, wanted: Set<Seq<char>>) -> Option<int> {
    if exists|i: int| is_first_hit(tokens, wanted, i) {
        Some(choose|i: int| is_first_hit(tokens, wanted, i))
    } else {
        None
    }
}

/// The position of the first occurrence of `key` in `tokens`.
pub open spec fn first_occurrence(tokens: Seq<Seq<char>>, key: Seq<char>) -> Option<int> {
    first_hit(tokens, set![key])
}

/// The token right behind the first occurrence of `key`. There is none when
/// `key` does not occur, and none when its first occurrence ends the line.
/// Later occurrences of `key` are never looked at, and the token behind the
/// first one counts as the value whatever it is, `key` itself included.
pub open spec fn value_after(tokens: Seq<Seq<char>>, key: Seq<char>) -> Option<Seq<char>> {
    match first_occurrence(tokens, key) {
        Some(i) => if i + 1 < tokens.len() {
            Some(tokens[i + 1])
        } else {
            None
        },
        None => None,
    }
}

/// The token right behind the first occurrence of `key`, provided that it
/// belongs to `allowed`. A value outside `allowed` gives nothing: no later
/// occurrence of `key` is tried in its place.
pub open spec fn allowed_value_after(
    tokens: Seq<Seq<char>>,
    key: Seq<char>,
    allowed: Set<Seq<char>>,
) -> Option<Seq<char>> {
    match value_after(tokens, key) {
        Some(value) => if allowed.contains(value) {
            Some(value)
        } else {
            None
        },
        None => None,
    }
}

/// The earliest token of the line that belongs to `candidates`.
pub open spec fn first_among(tokens: Seq<Seq<char>>, candidates: Set<Seq<char>>) -> Option<
    Seq<char>,
> {
    match first_hit(tokens, candidates) {
        Some(i) => Some(tokens[i]),
        None => None,
    }
}

/// The line without its first token, which names the program. An empty line
/// stays empty.
pub open spec fn after_program_name(invocation: Seq<Seq<char>>) -> Seq<Seq<char>> {
    if invocation.len() == 0 {
        invocation
    } else {
        invocation.drop_first()
    }
}

/// A position that satisfies `is_first_hit` is the one that `first_hit` gives.
pub proof fn lemma_first_hit_at(tokens: Seq<Seq<char>>, wanted: Set<Seq<char>>, i: int)
    requires
        is_first_hit(tokens, wanted, i),
    ensures
        first_hit(tokens, wanted) == Some(i),
{
    let chosen = choose|k: int| is_first_hit(tokens, wanted, k);
    assert(is_first_hit(tokens, wanted, chosen));
    if chosen < i {
        assert(!wanted.contains(tokens[chosen]));
    }
    if i < chosen {
        assert(!wanted.contains(tokens[i]));
    }
}

/// Among the first `n` tokens, either none belongs to `wanted` or one of them
/// is the first that does.
proof fn lemma_first_hit_in_prefix(tokens: Seq<Seq<char>>, wanted: Set<Seq<char>>, n: int)
    requires
        0 <= n <= tokens.len(),
    ensures
        (forall|j: int| 0 <= j < n ==> !wanted.contains(#[trigger] tokens[j])) || (exists|i: int|
            i < n && is_first_hit(tokens, wanted, i)),
    decreases n,
{
    if n > 0 {
        lemma_first_hit_in_prefix(tokens, wanted, n - 1);
        if forall|j: int| 0 <= j < n - 1 ==> !wanted.contains(#[trigger] tokens[j]) {
            if wanted.contains(tokens[n - 1]) {
                assert(is_first_hit(tokens, wanted, n - 1));
            }
        } else {
            let i = choose|i: int| i < n - 1 && is_first_hit(tokens, wanted, i);
            assert(i < n && is_first_hit(tokens, wanted, i));
        }
    }
}

/// `first_hit` finds nothing exactly when no token belongs to `wanted`, and
/// what it finds is the lowest position whose token does.
pub proof fn lemma_first_hit(tokens: Seq<Seq<char>>, wanted: Set<Seq<char>>)
    ensures
        match first_hit(tokens, wanted) {
            Some(i) => is_first_hit(tokens, wanted, i),
            None => forall|j: int| 0 <= j < tokens.len() ==> !wanted.contains(#[trigger] tokens[j]),
        },
{
    lemma_first_hit_in_prefix(tokens, wanted, tokens.len() as int);
}

} // verus!
