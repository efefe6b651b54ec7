//! The lexical grammar: what a scan of an input yields, stated over
//! `Seq<char>` and offsets into it.
//!
//! A scan walks the input from left to right. At each step it passes over
//! white space and then reads one lexeme, which is either a token or
//! something to pass over (a comment, or a malformed stretch that leaves a
//! diagnostic behind). Tokens and diagnostics carry the offset and line at
//! which they were found.

use crate::chars::{
    is_digit_char, is_letter_char, is_symbol_char, is_uppercase_char, lemma_run_end,
    lemma_run_end_advances, line_of, run_end, CharClass,
};
use crate::keywords::keyword_of;
use crate::token::{SpecError, SpecToken, SpecTokenType};
use vstd::prelude::*;

verus! {

/// The diagnostic with message `msg` for offset `at` of `input`.
pub open spec fn diagnostic(input: Seq<char>, at: int, msg: Seq<char>) -> SpecError {
    SpecError { lineno: line_of(input, at), pos: at, msg }
}

/// Whether a comment opens at offset `i`: the two characters `(*`.
pub open spec fn opens_comment(input: Seq<char>, i: int) -> bool {
    0 <= i && i + 1 < input.len() && input[i] == '(' && input[i + 1] == '*'
}

/// Whether a comment closes at offset `i`: the two characters `*)`.
pub open spec fn closes_comment(input: Seq<char>, i: int) -> bool {
    0 <= i && i + 1 < input.len() && input[i] == '*' && input[i + 1] == ')'
}

/// Where the comment text that starts at `i`, with `depth` comments open,
/// comes to its end: the offset just behind the `*)` that closes the
/// outermost of them, or `None` if the input ends first. Comments nest:
/// each `(*` opens one more and each `*)` closes the innermost.
pub open spec fn comment_close(input: Seq<char>, i: int, depth: nat) -> Option<int>
    decreases input.len() - i,
{
    if i < 0 || i >= input.len() {
        None
    } else if opens_comment(input, i) {
        comment_close(input, i + 2, depth + 1)
    } else if closes_comment(input, i) {
        if depth <= 1 {
            Some(i + 2)
        } else {
            comment_close(input, i + 2, (depth - 1) as nat)
        }
    } else {
        comment_close(input, i + 1, depth)
    }
}

/// What the character behind a backslash stands for in a string literal,
/// or `None` if the two form no escape sequence. A backslash before a
/// newline continues the string on the next line and stands for a newline.
pub open spec fn unescape(c: char) -> Option<char> {
    if c == 'n' {
        Some('\n')
    } else if c == 't' {
        Some('\t')
    } else if c == 'b' {
        Some('\u{8}')
    } else if c == 'f' {
        Some('\u{c}')
    } else if c == '\\' {
        Some('\\')
    } else if c == '"' {
        Some('"')
    } else if c == '\n' {
        Some('\n')
    } else {
        None
    }
}

/// One step through the text of a string literal.
pub ghost struct StringPiece {
    /// How many characters of the input the step takes: 1 or 2.
    pub width: int,
    /// What the step adds to the literal's value.
    pub text: Seq<char>,
    /// The diagnostics that the step leaves.
    pub errors: Seq<SpecError>,
}

/// The step through a string literal's text at offset `i`, which holds
/// neither the closing quote nor the end of the input.
///
/// A NUL character, escaped or not, is an error, and so is a backslash
/// before a character that forms no escape sequence with it. A backslash
/// that is the last character of the input is passed over.
pub open spec fn string_piece(input: Seq<char>, i: int) -> StringPiece {
    let c = input[i];
    if c == '\0' {
        StringPiece {
            width: 1,
            text: Seq::empty(),
            errors: seq![diagnostic(input, i, "string contains null character"@)],
        }
    } else if c != '\\' {
        StringPiece { width: 1, text: seq![c], errors: Seq::empty() }
    } else if i + 1 >= input.len() {
        StringPiece { width: 1, text: Seq::empty(), errors: Seq::empty() }
    } else if input[i + 1] == '\0' {
        StringPiece {
            width: 2,
            text: Seq::empty(),
            errors: seq![diagnostic(input, i + 1, "string contains null character"@)],
        }
    } else {
        match unescape(input[i + 1]) {
            Some(x) => StringPiece { width: 2, text: seq![x], errors: Seq::empty() },
            None => StringPiece {
                width: 2,
                text: Seq::empty(),
                errors: seq![diagnostic(input, i, "malformed escape sequence"@)],
            },
        }
    }
}

/// What reading the text of a string literal yields.
pub ghost struct StringScan {
    /// The offset behind the closing quote, or the length of the input.
    pub end: int,
    /// The literal's value as far as it is well formed.
    pub text: Seq<char>,
    /// The diagnostics found on the way, in order.
    pub errors: Seq<SpecError>,
}

/// Reads the text of a string literal from offset `i`, which lies behind
/// the opening quote, up to and including the closing quote. If the input
/// ends before the closing quote this is an error, reported at the end.
pub open spec fn string_scan(input: Seq<char>, i: int) -> StringScan
    decreases input.len() - i,
{
    if i < 0 || i >= input.len() {
        StringScan {
            end: input.len() as int,
            text: Seq::empty(),
            errors: seq![diagnostic(input, input.len() as int, "EOF in string constant"@)],
        }
    } else if input[i] == '"' {
        StringScan { end: i + 1, text: Seq::empty(), errors: Seq::empty() }
    } else {
        let piece = string_piece(input, i);
        let rest = string_scan(input, i + piece.width);
        StringScan {
            end: rest.end,
            text: piece.text + rest.text,
            errors: piece.errors + rest.errors,
        }
    }
}

/// What a word is: `true` and `false` are the boolean literals, a reserved
/// word is a keyword, and any other word is an identifier, a type
/// identifier if it begins with an upper-case letter and an object
/// identifier otherwise.
pub open spec fn classify_word(word: Seq<char>) -> SpecTokenType {
    if word == "true"@ {
        SpecTokenType::BoolConst(true)
    } else if word == "false"@ {
        SpecTokenType::BoolConst(false)
    } else if let Some(k) = keyword_of(word) {
        SpecTokenType::Keyword(k)
    } else if word.len() > 0 && is_uppercase_char(word[0]) {
        SpecTokenType::TypeID(word)
    } else {
        SpecTokenType::ObjectID(word)
    }
}

/// One lexeme: a stretch of the input that the scanner reads as a unit.
pub ghost struct Lexeme {
    /// The token that the lexeme is, or `None` if it is passed over.
    pub kind: Option<SpecTokenType>,
    /// The offset behind the lexeme.
    pub end: int,
    /// The diagnostics that the lexeme leaves, in order.
    pub errors: Seq<SpecError>,
}

/// The lexeme that begins with the punctuation character at offset `p`.
///
/// The character behind it decides: `<-`, `=>` and `<=` are operators,
/// `(*` opens a comment, which is passed over to its end, and `*)` outside
/// a comment is an error. In every other case the character stands alone
/// and the one behind it is left for the next lexeme.
pub open spec fn symbol_at(input: Seq<char>, p: int) -> Lexeme {
    let c = input[p];
    let d = input[p + 1];
    if p + 1 < input.len() && c == '<' && d == '-' {
        Lexeme { kind: Some(SpecTokenType::Assign), end: p + 2, errors: Seq::empty() }
    } else if p + 1 < input.len() && c == '=' && d == '>' {
        Lexeme { kind: Some(SpecTokenType::DArrow), end: p + 2, errors: Seq::empty() }
    } else if p + 1 < input.len() && c == '<' && d == '=' {
        Lexeme { kind: Some(SpecTokenType::Le), end: p + 2, errors: Seq::empty() }
    } else if p + 1 < input.len() && c == '(' && d == '*' {
        match comment_close(input, p + 2, 1) {
            Some(end) => Lexeme { kind: None, end, errors: Seq::empty() },
            None => Lexeme {
                kind: None,
                end: input.len() as int,
                errors: seq![diagnostic(input, input.len() as int, "EOF in comment"@)],
            },
        }
    } else if p + 1 < input.len() && c == '*' && d == ')' {
        Lexeme {
            kind: None,
            end: p + 2,
            errors: seq![diagnostic(input, p, "unmatched comment close"@)],
        }
    } else {
        Lexeme { kind: Some(SpecTokenType::SSymbol(c)), end: p + 1, errors: Seq::empty() }
    }
}

/// The lexeme that begins with the opening quote at offset `p`: a string
/// literal. It is a token only if it is closed and free of errors.
pub open spec fn string_at(input: Seq<char>, p: int) -> Lexeme {
    let scan = string_scan(input, p + 1);
    Lexeme {
        kind: if scan.errors.len() == 0 {
            Some(SpecTokenType::StrConst(scan.text))
        } else {
            None
        },
        end: scan.end,
        errors: scan.errors,
    }
}

/// The message for a character that begins no lexeme.
pub open spec fn invalid_character_message(c: char) -> Seq<char> {
    "invalid character: "@.push(c)
}

/// The lexeme that begins at offset `p`, which holds a character that is
/// not white space.
///
/// A digit begins an integer literal, the longest run of digits. A letter
/// begins a word, the longest run of letters and digits. A punctuation
/// character and a quote begin what [`symbol_at`] and [`string_at`] say.
/// Any other character is an error and is passed over by itself.
pub open spec fn lexeme_at(input: Seq<char>, p: int) -> Lexeme {
    let c = input[p];
    if is_digit_char(c) {
        let end = run_end(input, CharClass::Digit, p);
        Lexeme {
            kind: Some(SpecTokenType::IntConst(input.subrange(p, end))),
            end,
            errors: Seq::empty(),
        }
    } else if is_letter_char(c) {
        let end = run_end(input, CharClass::Ident, p);
        Lexeme { kind: Some(classify_word(input.subrange(p, end))), end, errors: Seq::empty() }
    } else if is_symbol_char(c) {
        symbol_at(input, p)
    } else if c == '"' {
        string_at(input, p)
    } else {
        Lexeme {
            kind: None,
            end: p + 1,
            errors: seq![diagnostic(input, p, invalid_character_message(c))],
        }
    }
}

/// A comment that closes does so within the input, behind where it was read from.
pub proof fn lemma_comment_close_bounds(input: Seq<char>, i: int, depth: nat)
    requires
        0 <= i,
    ensures
        comment_close(input, i, depth) matches Some(end) ==> i + 2 <= end <= input.len(),
    decreases input.len() - i,
{
    if i < input.len() {
        if opens_comment(input, i) {
            lemma_comment_close_bounds(input, i + 2, depth + 1);
        } else if closes_comment(input, i) {
            if depth > 1 {
                lemma_comment_close_bounds(input, i + 2, (depth - 1) as nat);
            }
        } else {
            lemma_comment_close_bounds(input, i + 1, depth);
        }
    }
}

/// Reading a string literal's text ends within the input, and behind where
/// it began unless it began at the end of the input.
pub proof fn lemma_string_scan_bounds(input: Seq<char>, i: int)
    requires
        0 <= i <= input.len(),
    ensures
        i <= string_scan(input, i).end <= input.len(),
        i < input.len() ==> i < string_scan(input, i).end,
    decreases input.len() - i,
{
    if i < input.len() && input[i] != '"' {
        let piece = string_piece(input, i);
        lemma_string_scan_bounds(input, i + piece.width);
    }
}

/// Every lexeme takes at least one character and ends within the input.
pub proof fn lemma_lexeme_advances(input: Seq<char>, p: int)
    requires
        0 <= p < input.len(),
    ensures
        p < lexeme_at(input, p).end <= input.len(),
{
    let c = input[p];
    if is_digit_char(c) {
        lemma_run_end(input, CharClass::Digit, p);
        lemma_run_end_advances(input, CharClass::Digit, p);
    } else if is_letter_char(c) {
        lemma_run_end(input, CharClass::Ident, p);
        lemma_run_end_advances(input, CharClass::Ident, p);
    } else if is_symbol_char(c) {
        lemma_comment_close_bounds(input, p + 2, 1);
    } else if c == '"' {
        lemma_string_scan_bounds(input, p + 1);
    }
}

/// What one request for a token yields.
pub ghost struct Scan {
    /// The token, or `None` at the end of the input.
    pub token: Option<SpecToken>,
    /// The offset behind what the request read.
    pub end: int,
    /// The diagnostics that the request left, in order.
    pub errors: Seq<SpecError>,
}

/// The next token from offset `i` on.
///
/// White space is passed over; then, unless the input has come to its end,
/// the lexeme found there is read. If it is a token, that is the result,
/// with the line and offset at which it began. If it is not, its
/// diagnostics are kept and reading goes on behind it.
pub open spec fn next_token(input: Seq<char>, i: int) -> Scan
    decreases input.len() - i,
    via next_token_decreases
{
    let p = run_end(input, CharClass::Blank, i);
    if i < 0 || p >= input.len() {
        Scan { token: None, end: p, errors: Seq::empty() }
    } else {
        let lexeme = lexeme_at(input, p);
        match lexeme.kind {
            Some(kind) => Scan {
                token: Some(SpecToken { kind, lineno: line_of(input, p), pos: p }),
                end: lexeme.end,
                errors: lexeme.errors,
            },
            None => {
                let rest = next_token(input, lexeme.end);
                Scan { token: rest.token, end: rest.end, errors: lexeme.errors + rest.errors }
            },
        }
    }
}

#[via_fn]
proof fn next_token_decreases(input: Seq<char>, i: int) {
    let p = run_end(input, CharClass::Blank, i);
    if 0 <= i && p < input.len() {
        lemma_run_end(input, CharClass::Blank, i);
        lemma_lexeme_advances(input, p);
    }
}

/// One request reads forward: it ends within the input and not before
/// where it began, a token lies where the request began or behind, and
/// a request that yields a token ends behind the place where the token began.
pub proof fn lemma_next_token_bounds(input: Seq<char>, i: int)
    requires
        0 <= i <= input.len(),
    ensures
        i <= next_token(input, i).end <= input.len(),
        next_token(input, i).token matches Some(t) ==> i <= t.pos < next_token(input, i).end
            && t.lineno == line_of(input, t.pos),
        next_token(input, i).token is None ==> next_token(input, i).end == input.len(),
    decreases input.len() - i,
{
    let p = run_end(input, CharClass::Blank, i);
    lemma_run_end(input, CharClass::Blank, i);
    if p < input.len() {
        lemma_lexeme_advances(input, p);
        let lexeme = lexeme_at(input, p);
        if lexeme.kind is None {
            lemma_next_token_bounds(input, lexeme.end);
        }
    }
}

/// All the tokens from offset `i` on, in the order in which requests yield them.
pub open spec fn tokens_from(input: Seq<char>, i: int) -> Seq<SpecToken>
    decreases input.len() - i,
    via tokens_from_decreases
{
    let scan = next_token(input, i);
    match scan.token {
        Some(token) if 0 <= i <= input.len() => seq![token] + tokens_from(input, scan.end),
        _ => Seq::empty(),
    }
}

#[via_fn]
proof fn tokens_from_decreases(input: Seq<char>, i: int) {
    if 0 <= i <= input.len() {
        lemma_next_token_bounds(input, i);
    }
}

/// All the diagnostics from offset `i` on, in the order in which they are found.
pub open spec fn errors_from(input: Seq<char>, i: int) -> Seq<SpecError>
    decreases input.len() - i,
    via errors_from_decreases
{
    let scan = next_token(input, i);
    match scan.token {
        Some(_) if 0 <= i <= input.len() => scan.errors + errors_from(input, scan.end),
        _ => scan.errors,
    }
}

#[via_fn]
proof fn errors_from_decreases(input: Seq<char>, i: int) {
    if 0 <= i <= input.len() {
        lemma_next_token_bounds(input, i);
    }
}

/// The tokens of a whole input.
pub open spec fn tokens_of(input: Seq<char>) -> Seq<SpecToken> {
    tokens_from(input, 0)
}

/// The diagnostics of a whole input.
pub open spec fn errors_of(input: Seq<char>) -> Seq<SpecError> {
    errors_from(input, 0)
}

} // verus!
