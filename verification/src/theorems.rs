//! What holds of every scan.

use crate::chars::{
    in_class, is_blank_char, lemma_line_of_monotonic, lemma_run_end, line_of, run_end, CharClass,
};
use crate::grammar::{
    errors_of, lemma_lexeme_advances, lemma_next_token_bounds, lexeme_at, next_token,
    tokens_from, tokens_of, Scan,
};
use crate::token::{SpecError, SpecToken};
use vstd::prelude::*;

verus! {

/// A stretch of the input that holds only characters of one class, up to
/// the end of the input, is one run.
pub proof fn lemma_run_to_the_end(input: Seq<char>, class: CharClass, i: int)
    requires
        0 <= i <= input.len(),
        forall|k: int| i <= k < input.len() ==> in_class(class, #[trigger] input[k]),
    ensures
        run_end(input, class, i) == input.len(),
    decreases input.len() - i,
{
    if i < input.len() {
        lemma_run_to_the_end(input, class, i + 1);
    }
}

/// An input that holds nothing but white space has no tokens and leaves no
/// diagnostics.
pub proof fn lemma_blank_input_is_empty(input: Seq<char>)
    requires
        forall|k: int| 0 <= k < input.len() ==> is_blank_char(#[trigger] input[k]),
    ensures
        tokens_of(input) == Seq::<SpecToken>::empty(),
        errors_of(input) == Seq::<SpecError>::empty(),
{
    lemma_run_to_the_end(input, CharClass::Blank, 0);
}

/// A scan depends on nothing but the input: two sessions over inputs that
/// hold the same characters yield the same tokens and the same diagnostics.
pub proof fn lemma_rescan_is_identical(first: Seq<char>, second: Seq<char>)
    requires
        first.len() == second.len(),
        forall|k: int| 0 <= k < first.len() ==> first[k] == second[k],
    ensures
        tokens_of(first) == tokens_of(second),
        errors_of(first) == errors_of(second),
{
    assert(first =~= second);
}

/// Once a request has found the end of the input, every further request
/// finds it again and leaves no diagnostic.
pub proof fn lemma_end_is_final(input: Seq<char>, i: int)
    requires
        0 <= i <= input.len(),
        next_token(input, i).token is None,
    ensures
        next_token(input, next_token(input, i).end) == (Scan {
            token: None,
            end: input.len() as int,
            errors: Seq::empty(),
        }),
{
    lemma_next_token_bounds(input, i);
}

/// No request yields an error token: lexical errors are diagnostics.
pub proof fn lemma_next_token_is_no_error(input: Seq<char>, i: int)
    requires
        0 <= i <= input.len(),
    ensures
        next_token(input, i).token matches Some(t) ==> !(t.kind is Error),
    decreases input.len() - i,
{
    let p = run_end(input, CharClass::Blank, i);
    lemma_run_end(input, CharClass::Blank, i);
    if p < input.len() {
        lemma_next_token_bounds(input, i);
        let lexeme = lexeme_at(input, p);
        if lexeme.kind is None {
            lemma_lexeme_advances(input, p);
            lemma_next_token_is_no_error(input, lexeme.end);
        }
    }
}

/// Where the tokens of a scan lie: each one begins within the input, at or
/// behind the offset from which the scan set out, carries the line of the
/// offset at which it begins, and is no error token.
pub proof fn lemma_token_placed(input: Seq<char>, from: int, k: int)
    requires
        0 <= from <= input.len(),
        0 <= k < tokens_from(input, from).len(),
    ensures
        from <= tokens_from(input, from)[k].pos < input.len(),
        tokens_from(input, from)[k].lineno == line_of(input, tokens_from(input, from)[k].pos),
        !(tokens_from(input, from)[k].kind is Error),
    decreases k,
{
    lemma_next_token_bounds(input, from);
    lemma_next_token_is_no_error(input, from);
    let scan = next_token(input, from);
    if k > 0 {
        lemma_token_placed(input, scan.end, k - 1);
    }
}

/// Along a scan the offsets at which tokens begin increase strictly, and
/// their lines never decrease.
pub proof fn lemma_tokens_in_order(input: Seq<char>, from: int, i: int, j: int)
    requires
        0 <= from <= input.len(),
        0 <= i < j < tokens_from(input, from).len(),
    ensures
        tokens_from(input, from)[i].pos < tokens_from(input, from)[j].pos,
        tokens_from(input, from)[i].lineno <= tokens_from(input, from)[j].lineno,
    decreases i,
{
    lemma_next_token_bounds(input, from);
    let scan = next_token(input, from);
    if i == 0 {
        lemma_token_placed(input, from, 0);
        lemma_token_placed(input, scan.end, j - 1);
    } else {
        lemma_tokens_in_order(input, scan.end, i - 1, j - 1);
    }
    lemma_token_placed(input, from, i);
    lemma_token_placed(input, from, j);
    lemma_line_of_monotonic(
        input,
        tokens_from(input, from)[i].pos,
        tokens_from(input, from)[j].pos,
    );
}

} // verus!
