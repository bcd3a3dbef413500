//! What holds of the lookups on every command line.
//!
//! Each statement is made over the functions of `model`, in which the
//! lookups' own contracts are written, so each one carries over to whatever
//! `Args::input`, `Args::select`, `Args::options` and `Args::flag` hand back.

use vstd::prelude::*;
use crate::args::Args;
use crate::model::{
    allowed_value_after, first_among, first_occurrence, is_first_hit, lemma_first_hit,
    lemma_first_hit_at, value_after,
};

verus! {

/// The first occurrence of `key`, where `first_occurrence` finds one, holds
/// `key` and nothing before it does; it finds none exactly when the line does
/// not hold `key`.
pub proof fn lemma_first_occurrence(tokens: Seq<Seq<char>>, key: Seq<char>)
    ensures
        match first_occurrence(tokens, key) {
            Some(i) => {
                &&& 0 <= i < tokens.len()
                &&& tokens[i] == key
                &&& forall|j: int| 0 <= j < i ==> tokens[j] != key
            },
            None => !tokens.contains(key),
        },
{
    lemma_first_hit(tokens, set![key]);
}

/// A key that the line does not hold has no value.
pub proof fn lemma_missing_key_has_no_value(tokens: Seq<Seq<char>>, key: Seq<char>)
    requires
        !tokens.contains(key),
    ensures
        value_after(tokens, key) is None,
{
    lemma_first_occurrence(tokens, key);
}

/// On a line made of a key and one more token, that token is the key's value.
pub proof fn lemma_pair_gives_value(key: Seq<char>, value: Seq<char>)
    ensures
        value_after(seq![key, value], key) == Some(value),
{
    let tokens = seq![key, value];
    assert(is_first_hit(tokens, set![key], 0));
    lemma_first_hit_at(tokens, set![key], 0);
}

/// A key that stands at the end of the line and nowhere before it has no
/// value.
pub proof fn lemma_key_at_end_has_no_value(tokens: Seq<Seq<char>>, key: Seq<char>)
    requires
        tokens.len() > 0,
        tokens.last() == key,
        forall|i: int| 0 <= i < tokens.len() - 1 ==> tokens[i] != key,
    ensures
        value_after(tokens, key) is None,
{
    let end = tokens.len() - 1;
    assert(is_first_hit(tokens, set![key], end));
    lemma_first_hit_at(tokens, set![key], end);
}

/// The value of a key is whatever stands behind its first occurrence: a later
/// occurrence does not count, and neither does what the value itself says.
pub proof fn lemma_value_follows_first_occurrence(tokens: Seq<Seq<char>>, key: Seq<char>, i: int)
    requires
        0 <= i < tokens.len(),
        tokens[i] == key,
        forall|j: int| 0 <= j < i ==> tokens[j] != key,
    ensures
        i + 1 < tokens.len() ==> value_after(tokens, key) == Some(tokens[i + 1]),
        i + 1 == tokens.len() ==> value_after(tokens, key) is None,
{
    assert(is_first_hit(tokens, set![key], i));
    lemma_first_hit_at(tokens, set![key], i);
}

/// A constrained lookup gives nothing in exactly three cases: the line does
/// not hold the key, the key's first occurrence ends the line, or the token
/// behind that occurrence is not an allowed one. In every other case it gives
/// that token.
pub proof fn lemma_allowed_value(
    tokens: Seq<Seq<char>>,
    key: Seq<char>,
    allowed: Set<Seq<char>>,
)
    ensures
        match first_occurrence(tokens, key) {
            Some(i) => if i + 1 < tokens.len() && allowed.contains(tokens[i + 1]) {
                allowed_value_after(tokens, key, allowed) == Some(tokens[i + 1])
            } else {
                allowed_value_after(tokens, key, allowed) is None
            },
            None => !tokens.contains(key) && allowed_value_after(tokens, key, allowed) is None,
        },
{
    lemma_first_occurrence(tokens, key);
}

/// On a line made of a key and an allowed token, the constrained lookup gives
/// that token.
pub proof fn lemma_pair_gives_allowed_value(
    key: Seq<char>,
    value: Seq<char>,
    allowed: Set<Seq<char>>,
)
    requires
        allowed.contains(value),
    ensures
        allowed_value_after(seq![key, value], key, allowed) == Some(value),
{
    lemma_pair_gives_value(key, value);
}

/// With nothing allowed, a constrained lookup gives nothing.
pub proof fn lemma_nothing_allowed(tokens: Seq<Seq<char>>, key: Seq<char>)
    ensures
        allowed_value_after(tokens, key, Set::empty()) is None,
{
}

/// A choice among candidates gives the token at the lowest position that
/// holds a candidate, and gives nothing exactly when no token is a candidate.
pub proof fn lemma_first_among(tokens: Seq<Seq<char>>, candidates: Set<Seq<char>>)
    ensures
        match first_among(tokens, candidates) {
            Some(token) => exists|i: int|
                is_first_hit(tokens, candidates, i) && tokens[i] == token,
            None => forall|j: int|
                0 <= j < tokens.len() ==> !candidates.contains(#[trigger] tokens[j]),
        },
{
    lemma_first_hit(tokens, candidates);
}

/// Two lists of candidates with the same entries, in whatever order and
/// however often repeated, make the same choice.
pub proof fn lemma_candidate_order_is_irrelevant(
    tokens: Seq<Seq<char>>,
    one: Seq<Seq<char>>,
    other: Seq<Seq<char>>,
)
    requires
        forall|token: Seq<char>| one.contains(token) <==> other.contains(token),
    ensures
        first_among(tokens, one.to_set()) == first_among(tokens, other.to_set()),
{
    assert(one.to_set() =~= other.to_set());
}

/// Asking `Args::input` twice for the same key of the same line gives the
/// same answer both times.
pub proof fn lemma_input_is_repeatable(
    line: Args,
    key: &str,
    once: (&str, Option<String>),
    again: (&str, Option<String>),
)
    requires
        call_ensures(Args::input, (&line, key), once),
        call_ensures(Args::input, (&line, key), again),
    ensures
        once.deep_view() == again.deep_view(),
{
}

/// Asking `Args::select` twice for the same key and the same allowed values
/// of the same line gives the same answer both times.
pub proof fn lemma_select_is_repeatable(
    line: Args,
    key: &str,
    allowed: &[&str],
    once: (&str, Option<String>),
    again: (&str, Option<String>),
)
    requires
        call_ensures(Args::select, (&line, key, allowed), once),
        call_ensures(Args::select, (&line, key, allowed), again),
    ensures
        once.deep_view() == again.deep_view(),
{
}

/// Asking `Args::options` twice for the same candidates on the same line
/// gives the same answer both times.
pub proof fn lemma_options_is_repeatable(
    line: Args,
    candidates: &[&str],
    once: Option<String>,
    again: Option<String>,
)
    requires
        call_ensures(Args::options, (&line, candidates), once),
        call_ensures(Args::options, (&line, candidates), again),
    ensures
        once.deep_view() == again.deep_view(),
{
}

/// Asking `Args::flag` twice for the same name on the same line gives the
/// same answer both times.
pub proof fn lemma_flag_is_repeatable(
    line: Args,
    name: &str,
    once: (&str, bool),
    again: (&str, bool),
)
    requires
        call_ensures(Args::flag, (&line, name), once),
        call_ensures(Args::flag, (&line, name), again),
    ensures
        once.deep_view() == again.deep_view(),
{
}

} // verus!
