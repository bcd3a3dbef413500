//! The captured command line and the lookups it answers.

use vstd::prelude::*;
use crate::model::{
    after_program_name, allowed_value_after, first_among, lemma_first_hit, lemma_first_hit_at,
    value_after,
};
use crate::text::{is_listed, same_text};

verus! {

/// The tokens of a command line, in the order in which they were typed and
/// without the program's name. No lookup changes it.
pub struct Args {
    pub args: Vec<String>,
}

impl View for Args {
    type V = Seq<Seq<char>>;

    open spec fn view(&self) -> Seq<Seq<char>> {
        self.args.deep_view()
    }
}

impl Args {
    /// Keeps what follows the program's name in `invocation`, the full list
    /// of tokens that a process was started with.
    pub fn collect(invocation: Vec<String>) -> (captured: Args)
        ensures
            captured@ == after_program_name(invocation.deep_view()),
    {
        let mut tokens = invocation;
        if tokens.len() > 0 {
            tokens.remove(0);
        }
        Args { args: tokens }
    }

    /// Looks `key` up and hands back the token typed right behind its first
    /// occurrence, as a copy.
    pub fn input<'a>(&'a self, key: &'a str) -> (found: (&'a str, Option<String>))
        ensures
            found.0@ == key@,
            found.1.deep_view() == value_after(self@, key@),
    {
        let n = self.args.len();
        let mut i: usize = 0;
        while i < n
            invariant
                n == self.args.len(),
                i <= n,
                forall|j: int| 0 <= j < i ==> self@[j] != key@,
            decreases n - i,
        {
            if same_text(self.args[i].as_str(), key) {
                proof {
                    lemma_first_hit_at(self@, set![key@], i as int);
                }
                if i + 1 < n {
                    return (key, Some(self.args[i + 1].clone()));
                }
                return (key, None);
            }
            i += 1;
        }
        proof {
            lemma_first_hit(self@, set![key@]);
        }
        (key, None)
    }

    /// Looks `key` up as `input` does, and keeps the value only if it is one
    /// of `allowed`.
    pub fn select<'a>(&'a self, key: &'a str, allowed: &'a [&str]) -> (found: (
        &'a str,
        Option<String>,
    ))
        ensures
            found.0@ == key@,
            found.1.deep_view() == allowed_value_after(
                self@,
                key@,
                allowed.deep_view().to_set(),
            ),
    {
        let (key, value) = self.input(key);
        match value {
            Some(value) => {
                if is_listed(value.as_str(), allowed) {
                    (key, Some(value))
                } else {
                    (key, None)
                }
            },
            None => (key, None),
        }
    }

    /// The earliest token of the line that is one of `candidates`, as a copy.
    /// The order of `candidates` plays no part.
    pub fn options(&self, candidates: &[&str]) -> (found: Option<String>)
        ensures
            found.deep_view() == first_among(self@, candidates.deep_view().to_set()),
    {
        let ghost wanted = candidates.deep_view().to_set();
        let mut i: usize = 0;
        while i < self.args.len()
            invariant
                i <= self.args.len(),
                wanted == candidates.deep_view().to_set(),
                forall|j: int| 0 <= j < i ==> !wanted.contains(#[trigger] self@[j]),
            decreases self.args.len() - i,
        {
            if is_listed(self.args[i].as_str(), candidates) {
                proof {
                    lemma_first_hit_at(self@, wanted, i as int);
                }
                return Some(self.args[i].clone());
            }
            i += 1;
        }
        proof {
            lemma_first_hit(self@, wanted);
        }
        None
    }

    /// Whether `name` was typed anywhere on the line. When it was, the text
    /// handed back is the line's own token, which reads the same as `name`.
    pub fn flag<'a>(&'a self, name: &'a str) -> (found: (&'a str, bool))
        ensures
            found.0@ == name@,
            found.1 == self@.contains(name@),
    {
        let mut i: usize = 0;
        while i < self.args.len()
            invariant
                i <= self.args.len(),
                forall|j: int| 0 <= j < i ==> self@[j] != name@,
            decreases self.args.len() - i,
        {
            let token = self.args[i].as_str();
            if same_text(token, name) {
                assert(self@[i as int] == name@);
                return (token, true);
            }
            i += 1;
        }
        (name, false)
    }
}

} // verus!
