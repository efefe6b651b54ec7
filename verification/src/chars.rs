//! Character classes, maximal runs of a class, and line counting.

use vstd::prelude::*;

verus! {

/// The decimal digits `0` to `9`.
pub open spec fn is_digit_char(c: char) -> bool {
    '0' <= c && c <= '9'
}

/// The upper-case ASCII letters.
pub open spec fn is_uppercase_char(c: char) -> bool {
    'A' <= c && c <= 'Z'
}

/// The lower-case ASCII letters.
pub open spec fn is_lowercase_char(c: char) -> bool {
    'a' <= c && c <= 'z'
}

/// The ASCII letters of either case.
pub open spec fn is_letter_char(c: char) -> bool {
    is_lowercase_char(c) || is_uppercase_char(c)
}

/// The characters that may continue an identifier: letters and digits.
pub open spec fn is_ident_char(c: char) -> bool {
    is_letter_char(c) || is_digit_char(c)
}

/// The punctuation characters of the language.
pub open spec fn is_symbol_char(c: char) -> bool {
    c == '{' || c == '}' || c == '(' || c == ')' || c == '*' || c == ':' || c == '<' || c == '>'
        || c == '-' || c == '@' || c == '.' || c == '=' || c == '+' || c == '/' || c == '~' || c
        == ';'
}

/// White space: space, tab and newline.
pub open spec fn is_blank_char(c: char) -> bool {
    c == ' ' || c == '\t' || c == '\n'
}

/// The classes of characters of which the scanner consumes maximal runs.
#[derive(Clone, Copy, Debug, PartialEq, Eq)]
pub enum CharClass {
    /// Decimal digits.
    Digit,
    /// Letters and digits.
    Ident,
    /// Space, tab and newline.
    Blank,
}

/// Whether `c` belongs to `class`.
pub open spec fn in_class(class: CharClass, c: char) -> bool {
    match class {
        CharClass::Digit => is_digit_char(c),
        CharClass::Ident => is_ident_char(c),
        CharClass::Blank => is_blank_char(c),
    }
}

/// The end of the maximal run of `class` characters that starts at `i`:
/// the first index from `i` on that holds no character of the class, or
/// the length of the input if there is none.
pub open spec fn run_end(input: Seq<char>, class: CharClass, i: int) -> int
    decreases input.len() - i,
{
    if 0 <= i < input.len() && in_class(class, input[i]) {
        run_end(input, class, i + 1)
    } else {
        i
    }
}

/// A run is maximal: it lies within the input, every character in it is of
/// the class, and the character behind it, if any, is not.
pub proof fn lemma_run_end(input: Seq<char>, class: CharClass, i: int)
    requires
        0 <= i <= input.len(),
    ensures
        i <= run_end(input, class, i) <= input.len(),
        forall|k: int| i <= k < run_end(input, class, i) ==> in_class(class, #[trigger] input[k]),
        run_end(input, class, i) < input.len() ==> !in_class(
            class,
            input[run_end(input, class, i)],
        ),
    decreases input.len() - i,
{
    if i < input.len() && in_class(class, input[i]) {
        lemma_run_end(input, class, i + 1);
    }
}

/// A run that starts at a character of the class is not empty.
pub proof fn lemma_run_end_advances(input: Seq<char>, class: CharClass, i: int)
    requires
        0 <= i < input.len(),
        in_class(class, input[i]),
    ensures
        i < run_end(input, class, i),
{
    lemma_run_end(input, class, i + 1);
}

/// The number of newline characters among the first `i` characters of the input.
pub open spec fn newlines_before(input: Seq<char>, i: int) -> int
    decreases i,
{
    if i <= 0 {
        0
    } else if i <= input.len() && input[i - 1] == '\n' {
        newlines_before(input, i - 1) + 1
    } else {
        newlines_before(input, i - 1)
    }
}

/// The line on which offset `i` lies. Lines are counted from 1, and a
/// newline character lies on the line that it ends.
pub open spec fn line_of(input: Seq<char>, i: int) -> int {
    1 + newlines_before(input, i)
}

/// There are no more newlines before an offset than characters.
pub proof fn lemma_newlines_bound(input: Seq<char>, i: int)
    requires
        0 <= i,
    ensures
        0 <= newlines_before(input, i) <= i,
    decreases i,
{
    if i > 0 {
        lemma_newlines_bound(input, i - 1);
    }
}

/// Line numbers never decrease along the input.
pub proof fn lemma_line_of_monotonic(input: Seq<char>, i: int, j: int)
    requires
        i <= j,
    ensures
        line_of(input, i) <= line_of(input, j),
    decreases j - i,
{
    if i < j {
        lemma_line_of_monotonic(input, i, j - 1);
    }
}

} // verus!
