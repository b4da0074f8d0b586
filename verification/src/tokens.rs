//! Splitting text into maximal runs of characters of one class, the way
//! `str::split_whitespace` and `str::split` with a character predicate do once
//! empty pieces are dropped.

use vstd::prelude::*;

use crate::text::{char_is_whitespace, is_ascii_digit, is_white_space};

verus! {

/// The class of characters that a token is made of.
#[derive(Clone, Copy, Debug, PartialEq, Eq, Structural)]
pub enum TokenClass {
    /// Characters that are not whitespace (`str::split_whitespace`).
    NotWhiteSpace,
    /// ASCII digits and `.`.
    DigitOrDot,
    /// Characters other than `/` (the segments of a URL path).
    PathSegment,
}

pub open spec fn in_class(class: TokenClass, c: char) -> bool {
    match class {
        TokenClass::NotWhiteSpace => !is_white_space(c),
        TokenClass::DigitOrDot => is_ascii_digit(c) || c == '.',
        TokenClass::PathSegment => c != '/',
    }
}

/// The end of the run of `class` characters that starts at `i`.
pub open spec fn run_end(s: Seq<char>, i: int, class: TokenClass) -> int
    decreases s.len() - i,
{
    if 0 <= i < s.len() && in_class(class, s[i]) {
        run_end(s, i + 1, class)
    } else {
        i
    }
}

/// A run from `i` holds only characters of its class and stops before the
/// first character of another class.
pub proof fn lemma_run_end(s: Seq<char>, i: int, class: TokenClass)
    requires
        0 <= i <= s.len(),
    ensures
        i <= run_end(s, i, class) <= s.len(),
        0 <= i < s.len() && in_class(class, s[i]) ==> i < run_end(s, i, class),
        forall|k: int| i <= k < run_end(s, i, class) ==> in_class(class, #[trigger] s[k]),
        run_end(s, i, class) < s.len() ==> !in_class(class, s[run_end(s, i, class)]),
    decreases s.len() - i,
{
    if 0 <= i < s.len() && in_class(class, s[i]) {
        lemma_run_end(s, i + 1, class);
    }
}

/// The maximal runs of `class` characters in `s` from index `i` on.
pub open spec fn runs_from(s: Seq<char>, i: int, class: TokenClass) -> Seq<Seq<char>>
    decreases s.len() - i,
{
    if i < 0 || i >= s.len() {
        Seq::empty()
    } else if !in_class(class, s[i]) {
        runs_from(s, i + 1, class)
    } else {
        let j = run_end(s, i, class);
        proof {
            lemma_run_end(s, i, class);
        }
        seq![s.subrange(i, j)] + runs_from(s, j, class)
    }
}

/// The maximal runs of `class` characters in `s`, in order.
pub open spec fn runs(s: Seq<char>, class: TokenClass) -> Seq<Seq<char>> {
    runs_from(s, 0, class)
}

/// `str::split_whitespace`.
pub open spec fn words(s: Seq<char>) -> Seq<Seq<char>> {
    runs(s, TokenClass::NotWhiteSpace)
}

pub fn in_class_exec(class: TokenClass, c: char) -> (r: bool)
    ensures
        r == in_class(class, c),
{
    match class {
        TokenClass::NotWhiteSpace => !char_is_whitespace(c),
        TokenClass::DigitOrDot => ('0' <= c && c <= '9') || c == '.',
        TokenClass::PathSegment => c != '/',
    }
}

/// The maximal runs of `class` characters in `s`.
pub fn runs_exec(s: &Vec<char>, class: TokenClass) -> (r: Vec<Vec<char>>)
    ensures
        r.deep_view() == runs(s@, class),
{
    let mut r: Vec<Vec<char>> = Vec::new();
    let mut i: usize = 0;
    while i < s.len()
        invariant
            i <= s@.len(),
            r.deep_view() + runs_from(s@, i as int, class) == runs(s@, class),
        decreases s@.len() - i,
    {
        if !in_class_exec(class, s[i]) {
            i = i + 1;
        } else {
            let start = i;
            let mut token: Vec<char> = Vec::new();
            while i < s.len() && in_class_exec(class, s[i])
                invariant
                    start <= i <= s@.len(),
                    start < s@.len(),
                    in_class(class, s@[start as int]),
                    run_end(s@, start as int, class) == run_end(s@, i as int, class),
                    token@ == s@.subrange(start as int, i as int),
                decreases s@.len() - i,
            {
                token.push(s[i]);
                i = i + 1;
                assert(token@ =~= s@.subrange(start as int, i as int));
            }
            proof {
                lemma_run_end(s@, start as int, class);
                let ghost before = r.deep_view();
                assert(runs_from(s@, start as int, class) == seq![s@.subrange(start as int, i as int)]
                    + runs_from(s@, i as int, class));
            }
            let ghost before = r.deep_view();
            assert(token.deep_view() =~= token@);
            r.push(token);
            proof {
                assert(r.deep_view()[r.deep_view().len() - 1] == r@[r@.len() - 1].deep_view());
                assert(r.deep_view() =~= before.push(s@.subrange(start as int, i as int)));
                assert(before + runs_from(s@, start as int, class) =~= r.deep_view()
                    + runs_from(s@, i as int, class));
            }
        }
    }
    assert(r.deep_view() + runs_from(s@, i as int, class) =~= r.deep_view());
    r
}

} // verus!
