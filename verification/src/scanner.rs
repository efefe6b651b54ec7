//! The scanner: a cursor over the input, the keyword table, and the
//! diagnostics collected so far.

use crate::chars::{
    is_blank_char, is_digit_char, is_letter_char, is_symbol_char, is_uppercase_char,
    lemma_newlines_bound, lemma_run_end, lemma_run_end_advances, line_of, run_end, CharClass,
};
use crate::keywords::KeywordTable;
use crate::grammar::{
    classify_word, comment_close, diagnostic, errors_from, errors_of, lemma_lexeme_advances,
    lemma_next_token_bounds, lexeme_at, next_token, string_piece, string_scan, symbol_at,
    tokens_from, tokens_of, unescape,
};
use crate::token::{Error, SpecError, SpecToken, Token, TokenType};
use vstd::prelude::*;

verus! {

/// One scan session over one input.
///
/// The scanner owns its input and reads it from left to right. Its cursor
/// is an offset into the input together with the line on which that offset
/// lies; only [`Scanner::read_char`] moves it, one character at a time.
pub struct Scanner {
    input: Vec<char>,
    pos: usize,
    lineno: usize,
    keywords: KeywordTable,
    errors: Vec<Error>,
}

impl Scanner {
    /// The input of this session.
    pub closed spec fn source(&self) -> Seq<char> {
        self.input@
    }

    /// The offset of the cursor: how many characters have been read.
    pub closed spec fn offset(&self) -> int {
        self.pos as int
    }

    /// The line on which the cursor stands, counted from 1.
    pub closed spec fn line(&self) -> int {
        self.lineno as int
    }

    /// The diagnostics recorded so far, oldest first.
    pub closed spec fn diagnostics(&self) -> Seq<SpecError> {
        self.errors.deep_view()
    }

    /// The character under the cursor, or `None` at the end of the input.
    pub open spec fn peek(&self) -> Option<char> {
        if 0 <= self.offset() < self.source().len() {
            Some(self.source()[self.offset()])
        } else {
            None
        }
    }

    /// What holds of every scanner: the cursor lies within the input or at
    /// its end, and the line is the one on which the cursor's offset lies.
    pub open spec fn wf(&self) -> bool {
        &&& 0 <= self.offset() <= self.source().len() < usize::MAX
        &&& self.line() == line_of(self.source(), self.offset())
    }

    /// A scanner at the start of `input`, on line 1, with no diagnostics.
    pub fn new(input: Vec<char>) -> (scanner: Scanner)
        requires
            input.len() < usize::MAX,
        ensures
            scanner.wf(),
            scanner.source() == input@,
            scanner.offset() == 0,
            scanner.line() == 1,
            scanner.diagnostics() == Seq::<SpecError>::empty(),
    {
        let scanner = Scanner {
            input,
            pos: 0,
            lineno: 1,
            keywords: KeywordTable::new(),
            errors: Vec::new(),
        };
        assert(scanner.errors.deep_view() =~= Seq::<SpecError>::empty());
        scanner
    }

    /// The character under the cursor, or `None` at the end of the input.
    /// The cursor stays where it is.
    pub fn current(&self) -> (c: Option<char>)
        ensures
            c == self.peek(),
    {
        if self.pos < self.input.len() {
            Some(self.input[self.pos])
        } else {
            None
        }
    }

    /// The diagnostics recorded so far, oldest first.
    pub fn errors(&self) -> (errors: &Vec<Error>)
        ensures
            errors.deep_view() == self.diagnostics(),
    {
        &self.errors
    }

    /// Appends a diagnostic for line `lineno`, offset `pos`. Nothing else
    /// changes, and no diagnostic is ever dropped or merged with another.
    pub fn record(&mut self, lineno: usize, pos: usize, msg: String)
        ensures
            final(self).diagnostics() == old(self).diagnostics().push(
                SpecError { lineno: lineno as int, pos: pos as int, msg: msg@ },
            ),
            final(self).source() == old(self).source(),
            final(self).offset() == old(self).offset(),
            final(self).line() == old(self).line(),
    {
        let error = Error::new(lineno, pos, msg);
        self.errors.push(error);
        assert(self.errors.deep_view() =~= old(self).errors.deep_view().push(error@));
    }

    /// Appends a diagnostic with message `msg` for the place where the
    /// cursor stands.
    pub fn err(&mut self, msg: &str)
        ensures
            final(self).diagnostics() == old(self).diagnostics().push(
                SpecError { lineno: old(self).line(), pos: old(self).offset(), msg: msg@ },
            ),
            final(self).source() == old(self).source(),
            final(self).offset() == old(self).offset(),
            final(self).line() == old(self).line(),
    {
        let lineno = self.lineno;
        let pos = self.pos;
        self.record(lineno, pos, msg.to_owned());
    }

    /// Moves the cursor over one character. A newline, once read, puts
    /// the cursor on the next line. At the end of the input there is
    /// nothing to read and the cursor stays.
    pub fn read_char(&mut self)
        requires
            old(self).wf(),
        ensures
            final(self).wf(),
            final(self).source() == old(self).source(),
            final(self).diagnostics() == old(self).diagnostics(),
            final(self).offset() == if old(self).peek() is Some {
                old(self).offset() + 1
            } else {
                old(self).offset()
            },
            final(self).line() == if old(self).peek() == Some('\n') {
                old(self).line() + 1
            } else {
                old(self).line()
            },
    {
        if self.pos < self.input.len() {
            proof {
                lemma_newlines_bound(self.input@, self.pos as int);
            }
            if self.input[self.pos] == '\n' {
                self.lineno = self.lineno + 1;
            }
            self.pos = self.pos + 1;
        }
    }

    /// Whether the cursor stands on an upper-case letter.
    pub fn is_uppercase(&self) -> (b: bool)
        ensures
            b == (self.peek() matches Some(c) && is_uppercase_char(c)),
    {
        match self.current() {
            Some(c) => c >= 'A' && c <= 'Z',
            None => false,
        }
    }

    /// Whether the cursor stands on a letter.
    pub fn is_letter(&self) -> (b: bool)
        ensures
            b == (self.peek() matches Some(c) && is_letter_char(c)),
    {
        match self.current() {
            Some(c) => (c >= 'a' && c <= 'z') || (c >= 'A' && c <= 'Z'),
            None => false,
        }
    }

    /// Whether the cursor stands on a digit.
    pub fn is_digit(&self) -> (b: bool)
        ensures
            b == (self.peek() matches Some(c) && is_digit_char(c)),
    {
        match self.current() {
            Some(c) => c >= '0' && c <= '9',
            None => false,
        }
    }

    /// Whether the cursor stands at the end of the input.
    pub fn is_eof(&self) -> (b: bool)
        ensures
            b == (self.peek() is None),
    {
        self.pos >= self.input.len()
    }

    /// Whether the cursor stands on a punctuation character.
    pub fn is_symbol(&self) -> (b: bool)
        ensures
            b == (self.peek() matches Some(c) && is_symbol_char(c)),
    {
        match self.current() {
            Some(c) => c == '{' || c == '}' || c == '(' || c == ')' || c == '*' || c == ':' || c
                == '<' || c == '>' || c == '-' || c == '@' || c == '.' || c == '=' || c == '+'
                || c == '/' || c == '~' || c == ';',
            None => false,
        }
    }

    /// Whether the cursor stands on white space.
    pub fn is_whitespace(&self) -> (b: bool)
        ensures
            b == (self.peek() matches Some(c) && is_blank_char(c)),
    {
        match self.current() {
            Some(c) => c == ' ' || c == '\t' || c == '\n',
            None => false,
        }
    }

    /// Moves the cursor over white space, up to the first character that
    /// is none or to the end of the input.
    pub fn skip_whitespaces(&mut self)
        requires
            old(self).wf(),
        ensures
            final(self).wf(),
            final(self).source() == old(self).source(),
            final(self).diagnostics() == old(self).diagnostics(),
            final(self).offset() == run_end(old(self).source(), CharClass::Blank, old(self).offset()),
    {
        while self.is_whitespace()
            invariant
                self.wf(),
                self.source() == old(self).source(),
                self.diagnostics() == old(self).diagnostics(),
                run_end(self.source(), CharClass::Blank, self.offset()) == run_end(
                    old(self).source(),
                    CharClass::Blank,
                    old(self).offset(),
                ),
            decreases self.source().len() - self.offset(),
        {
            self.read_char();
        }
    }

    /// Reads the longest run of digits that begins under the cursor and
    /// returns it. The run is empty if the cursor stands on no digit.
    pub fn scan_number(&mut self) -> (val: String)
        requires
            old(self).wf(),
        ensures
            final(self).wf(),
            final(self).source() == old(self).source(),
            final(self).diagnostics() == old(self).diagnostics(),
            final(self).offset() == run_end(old(self).source(), CharClass::Digit, old(self).offset()),
            val@ == old(self).source().subrange(old(self).offset(), final(self).offset()),
    {
        let mut val = String::new();
        while self.is_digit()
            invariant
                self.wf(),
                self.source() == old(self).source(),
                self.diagnostics() == old(self).diagnostics(),
                old(self).offset() <= self.offset(),
                run_end(self.source(), CharClass::Digit, self.offset()) == run_end(
                    old(self).source(),
                    CharClass::Digit,
                    old(self).offset(),
                ),
                val@ == self.source().subrange(old(self).offset(), self.offset()),
            decreases self.source().len() - self.offset(),
        {
            val.push(self.input[self.pos]);
            self.read_char();
            assert(val@ =~= self.source().subrange(old(self).offset(), self.offset()));
        }
        val
    }

    /// Reads the longest run of letters and digits that begins under the
    /// cursor and returns it. The run is empty if the cursor stands on
    /// neither.
    pub fn scan_identifier(&mut self) -> (val: String)
        requires
            old(self).wf(),
        ensures
            final(self).wf(),
            final(self).source() == old(self).source(),
            final(self).diagnostics() == old(self).diagnostics(),
            final(self).offset() == run_end(old(self).source(), CharClass::Ident, old(self).offset()),
            val@ == old(self).source().subrange(old(self).offset(), final(self).offset()),
    {
        let mut val = String::new();
        while self.is_digit() || self.is_letter()
            invariant
                self.wf(),
                self.source() == old(self).source(),
                self.diagnostics() == old(self).diagnostics(),
                old(self).offset() <= self.offset(),
                run_end(self.source(), CharClass::Ident, self.offset()) == run_end(
                    old(self).source(),
                    CharClass::Ident,
                    old(self).offset(),
                ),
                val@ == self.source().subrange(old(self).offset(), self.offset()),
            decreases self.source().len() - self.offset(),
        {
            val.push(self.input[self.pos]);
            self.read_char();
            assert(val@ =~= self.source().subrange(old(self).offset(), self.offset()));
        }
        val
    }

    /// Whether the cursor stands on the character `c`.
    fn is_char(&self, c: char) -> (b: bool)
        ensures
            b == (self.peek() == Some(c)),
    {
        match self.current() {
            Some(d) => d == c,
            None => false,
        }
    }

    /// Moves the cursor over the text of a comment, up to and including
    /// the `*)` that closes it. The cursor stands behind the opening `(*`
    /// when this is called. Comments nest. If the input ends inside the
    /// comment, the cursor stops at the end and the diagnostic
    /// "EOF in comment" is recorded for that place.
    pub fn skip_comment(&mut self)
        requires
            old(self).wf(),
        ensures
            final(self).wf(),
            final(self).source() == old(self).source(),
            match comment_close(old(self).source(), old(self).offset(), 1) {
                Some(end) => {
                    &&& final(self).offset() == end
                    &&& final(self).diagnostics() == old(self).diagnostics()
                },
                None => {
                    &&& final(self).offset() == old(self).source().len()
                    &&& final(self).diagnostics() == old(self).diagnostics().push(
                        diagnostic(
                            old(self).source(),
                            old(self).source().len() as int,
                            "EOF in comment"@,
                        ),
                    )
                },
            },
    {
        let mut depth: usize = 1;
        loop
            invariant
                self.wf(),
                self.source() == old(self).source(),
                self.diagnostics() == old(self).diagnostics(),
                1 <= depth <= self.offset() + 1,
                comment_close(self.source(), self.offset(), depth as nat) == comment_close(
                    old(self).source(),
                    old(self).offset(),
                    1,
                ),
            decreases self.source().len() - self.offset(),
        {
            match self.current() {
                None => {
                    self.err("EOF in comment");
                    return;
                },
                Some(c) => {
                    self.read_char();
                    if c == '(' && self.is_char('*') {
                        self.read_char();
                        depth = depth + 1;
                    } else if c == '*' && self.is_char(')') {
                        self.read_char();
                        depth = depth - 1;
                        if depth == 0 {
                            return;
                        }
                    }
                },
            }
        }
    }

    /// Reads the text of a string literal, up to and including the closing
    /// quote, and returns its value with the escape sequences resolved.
    /// The cursor stands behind the opening quote when this is called.
    ///
    /// Every error in the literal is recorded as a diagnostic: a NUL
    /// character, a backslash before a character that forms no escape
    /// sequence with it, and the end of the input before the closing
    /// quote. A literal with an error has no value: the result is `None`.
    pub fn scan_string(&mut self) -> (val: Option<String>)
        requires
            old(self).wf(),
        ensures
            final(self).wf(),
            final(self).source() == old(self).source(),
            final(self).offset() == string_scan(old(self).source(), old(self).offset()).end,
            final(self).diagnostics() == old(self).diagnostics() + string_scan(
                old(self).source(),
                old(self).offset(),
            ).errors,
            val.deep_view() == if string_scan(old(self).source(), old(self).offset()).errors.len()
                == 0 {
                Some(string_scan(old(self).source(), old(self).offset()).text)
            } else {
                None
            },
    {
        let ghost whole = string_scan(self.source(), self.offset());
        let mut val = String::new();
        let mut sound = true;
        loop
            invariant
                self.wf(),
                self.source() == old(self).source(),
                whole == string_scan(old(self).source(), old(self).offset()),
                whole.end == string_scan(self.source(), self.offset()).end,
                whole.text == val@ + string_scan(self.source(), self.offset()).text,
                old(self).diagnostics() + whole.errors == self.diagnostics() + string_scan(
                    self.source(),
                    self.offset(),
                ).errors,
                sound == (self.diagnostics().len() == old(self).diagnostics().len()),
                self.diagnostics().len() >= old(self).diagnostics().len(),
            decreases self.source().len() - self.offset(),
        {
            let ghost before = self.diagnostics();
            let ghost here = self.offset();
            let ghost piece = string_piece(self.source(), here);
            let ghost rest = string_scan(self.source(), here + piece.width);
            match self.current() {
                None => {
                    self.err("EOF in string constant");
                    assert(self.diagnostics() =~= before + string_scan(
                        self.source(),
                        here,
                    ).errors);
                    return None;
                },
                Some(c) => {
                    let lineno = self.lineno;
                    let pos = self.pos;
                    self.read_char();
                    if c == '"' {
                        assert(old(self).diagnostics() + whole.errors =~= self.diagnostics());
                        assert(whole.text =~= val@);
                        if sound {
                            return Some(val);
                        } else {
                            return None;
                        }
                    } else if c == '\0' {
                        self.record(lineno, pos, "string contains null character".to_owned());
                        sound = false;
                    } else if c != '\\' {
                        val.push(c);
                    } else {
                        match self.current() {
                            None => {},
                            Some(e) => {
                                if e == '\0' {
                                    self.err("string contains null character");
                                    sound = false;
                                } else {
                                    match unescaped(e) {
                                        Some(x) => {
                                            val.push(x);
                                        },
                                        None => {
                                            self.record(
                                                lineno,
                                                pos,
                                                "malformed escape sequence".to_owned(),
                                            );
                                            sound = false;
                                        },
                                    }
                                }
                                self.read_char();
                            },
                        }
                    }
                    assert(self.offset() == here + piece.width);
                    assert(self.diagnostics() =~= before + piece.errors);
                    assert(self.diagnostics() + rest.errors =~= before + (piece.errors
                        + rest.errors));
                    assert(val@ + rest.text =~= whole.text);
                },
            }
        }
    }

    /// What the word `word` is: a boolean literal, a keyword or an
    /// identifier. `upper` tells whether the word begins with an
    /// upper-case letter, which makes an identifier a type identifier.
    fn classify(&self, word: String, upper: bool) -> (kind: TokenType)
        requires
            upper == (word@.len() > 0 && is_uppercase_char(word@[0])),
        ensures
            kind@ == classify_word(word@),
    {
        if word == "true".to_owned() {
            TokenType::BoolConst(true)
        } else if word == "false".to_owned() {
            TokenType::BoolConst(false)
        } else {
            match self.keywords.lookup(&word) {
                Some(k) => TokenType::Keyword(k),
                None => {
                    if upper {
                        TokenType::TypeID(word)
                    } else {
                        TokenType::ObjectID(word)
                    }
                },
            }
        }
    }

    /// Reads the lexeme that begins with the punctuation character under
    /// the cursor: an operator of two characters, a comment, a stray `*)`,
    /// or the character by itself. The character is read first and the one
    /// behind it decides; where it completes nothing it is left unread.
    fn scan_symbol(&mut self) -> (kind: Option<TokenType>)
        requires
            old(self).wf(),
            old(self).peek() matches Some(c) && is_symbol_char(c),
        ensures
            final(self).wf(),
            final(self).source() == old(self).source(),
            final(self).offset() == symbol_at(old(self).source(), old(self).offset()).end,
            final(self).diagnostics() == old(self).diagnostics() + symbol_at(
                old(self).source(),
                old(self).offset(),
            ).errors,
            kind.deep_view() == symbol_at(old(self).source(), old(self).offset()).kind,
    {
        let lineno = self.lineno;
        let pos = self.pos;
        let ch = self.input[self.pos];
        self.read_char();
        let kind = if ch == '<' && self.is_char('-') {
            self.read_char();
            Some(TokenType::Assign)
        } else if ch == '=' && self.is_char('>') {
            self.read_char();
            Some(TokenType::DArrow)
        } else if ch == '<' && self.is_char('=') {
            self.read_char();
            Some(TokenType::Le)
        } else if ch == '(' && self.is_char('*') {
            self.read_char();
            self.skip_comment();
            None
        } else if ch == '*' && self.is_char(')') {
            self.read_char();
            self.record(lineno, pos, "unmatched comment close".to_owned());
            None
        } else {
            Some(TokenType::SSymbol(ch))
        };
        assert(self.diagnostics() =~= old(self).diagnostics() + symbol_at(
            old(self).source(),
            old(self).offset(),
        ).errors);
        kind
    }

    /// Reads the lexeme that begins under the cursor, which stands on a
    /// character that is not white space. The result is the token that the
    /// lexeme is, or `None` if it is one to pass over.
    fn scan_lexeme(&mut self) -> (kind: Option<TokenType>)
        requires
            old(self).wf(),
            old(self).peek() is Some,
        ensures
            final(self).wf(),
            final(self).source() == old(self).source(),
            final(self).offset() == lexeme_at(old(self).source(), old(self).offset()).end,
            final(self).diagnostics() == old(self).diagnostics() + lexeme_at(
                old(self).source(),
                old(self).offset(),
            ).errors,
            kind.deep_view() == lexeme_at(old(self).source(), old(self).offset()).kind,
    {
        let kind = if self.is_digit() {
            let val = self.scan_number();
            Some(TokenType::IntConst(val))
        } else if self.is_letter() {
            let upper = self.is_uppercase();
            proof {
                lemma_run_end_advances(self.source(), CharClass::Ident, self.offset());
            }
            let word = self.scan_identifier();
            Some(self.classify(word, upper))
        } else if self.is_symbol() {
            self.scan_symbol()
        } else if self.is_char('"') {
            self.read_char();
            match self.scan_string() {
                Some(val) => Some(TokenType::StrConst(val)),
                None => None,
            }
        } else {
            let mut msg = "invalid character: ".to_owned();
            msg.push(self.input[self.pos]);
            let lineno = self.lineno;
            let pos = self.pos;
            self.record(lineno, pos, msg);
            self.read_char();
            None
        };
        assert(self.diagnostics() =~= old(self).diagnostics() + lexeme_at(
            old(self).source(),
            old(self).offset(),
        ).errors);
        kind
    }

    /// The next token, or `None` once the input has come to its end; from
    /// then on every request yields `None` again.
    ///
    /// White space, comments and malformed stretches of the input are
    /// passed over, as many as there are, within this one request. Each
    /// lexical error on the way is recorded as a diagnostic and never
    /// returned as a token. The token carries the line and offset at which
    /// it began.
    pub fn next(&mut self) -> (token: Option<Token>)
        requires
            old(self).wf(),
        ensures
            final(self).wf(),
            final(self).source() == old(self).source(),
            token.deep_view() == next_token(old(self).source(), old(self).offset()).token,
            final(self).offset() == next_token(old(self).source(), old(self).offset()).end,
            final(self).diagnostics() == old(self).diagnostics() + next_token(
                old(self).source(),
                old(self).offset(),
            ).errors,
    {
        let ghost whole = next_token(self.source(), self.offset());
        loop
            invariant
                self.wf(),
                self.source() == old(self).source(),
                whole == next_token(old(self).source(), old(self).offset()),
                whole.token == next_token(self.source(), self.offset()).token,
                whole.end == next_token(self.source(), self.offset()).end,
                old(self).diagnostics() + whole.errors == self.diagnostics() + next_token(
                    self.source(),
                    self.offset(),
                ).errors,
            decreases self.source().len() - self.offset(),
        {
            let ghost before = self.diagnostics();
            let ghost from = self.offset();
            proof {
                lemma_run_end(self.source(), CharClass::Blank, from);
            }
            self.skip_whitespaces();
            if self.is_eof() {
                assert(old(self).diagnostics() + whole.errors =~= self.diagnostics());
                return None;
            }
            let ghost lexeme = lexeme_at(self.source(), self.offset());
            proof {
                lemma_lexeme_advances(self.source(), self.offset());
            }
            let lineno = self.lineno;
            let pos = self.pos;
            match self.scan_lexeme() {
                Some(kind) => {
                    assert(old(self).diagnostics() + whole.errors =~= self.diagnostics());
                    return Some(Token::new(kind, lineno, pos));
                },
                None => {
                    let ghost rest = next_token(self.source(), self.offset());
                    assert(self.diagnostics() + rest.errors =~= before + (lexeme.errors
                        + rest.errors));
                },
            }
        }
    }
}

/// Scans a whole input: all its tokens, in order, and all the diagnostics
/// that the scan left, in order.
pub fn tokenize(input: Vec<char>) -> (result: (Vec<Token>, Vec<Error>))
    requires
        input.len() < usize::MAX,
    ensures
        result.0.deep_view() == tokens_of(input@),
        result.1.deep_view() == errors_of(input@),
{
    let ghost source = input@;
    let mut scanner = Scanner::new(input);
    let mut tokens: Vec<Token> = Vec::new();
    assert(tokens.deep_view() =~= Seq::<SpecToken>::empty());
    loop
        invariant
            source == input@,
            scanner.wf(),
            scanner.source() == source,
            tokens_of(source) == tokens.deep_view() + tokens_from(source, scanner.offset()),
            errors_of(source) == scanner.diagnostics() + errors_from(source, scanner.offset()),
        decreases source.len() - scanner.offset(),
    {
        let ghost before = scanner.diagnostics();
        let ghost from = scanner.offset();
        let ghost seen = tokens.deep_view();
        proof {
            lemma_next_token_bounds(source, from);
        }
        match scanner.next() {
            Some(token) => {
                tokens.push(token);
                proof {
                    let scan = next_token(source, from);
                    assert(tokens.deep_view() =~= seen.push(token@));
                    assert(tokens.deep_view() + tokens_from(source, scan.end) =~= seen + (
                        seq![token@] + tokens_from(source, scan.end)));
                    assert(scanner.diagnostics() + errors_from(source, scan.end) =~= before + (
                        scan.errors + errors_from(source, scan.end)));
                }
            },
            None => {
                assert(tokens.deep_view() =~= tokens_of(source));
                assert(scanner.diagnostics() =~= errors_of(source));
                return (tokens, scanner.errors);
            },
        }
    }
}

/// What the character behind a backslash stands for in a string literal,
/// or `None` if the two form no escape sequence.
pub fn unescaped(c: char) -> (r: Option<char>)
    ensures
        r == unescape(c),
{
    if c == 'n' {
        Some('\n')
    } else if c == 't' {
        Some('\t')
    } else if c == 'b' {
        Some('\u{8}')
    } else if c == 'f' {
        Some('\u{c}')
    } else if c == '\\' {
        Some('\\')
    } else if c == '"' {
        Some('"')
    } else if c == '\n' {
        Some('\n')
    } else {
        None
    }
}

} // verus!
