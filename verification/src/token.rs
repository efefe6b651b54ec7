//! Tokens and diagnostics, and the mathematical values that stand for them.

use vstd::prelude::*;

verus! {

/// The reserved words of the language.
#[derive(Clone, Copy, Debug, PartialEq, Eq, Structural)]
pub enum Keyword {
    Class,
    Else,
    Fi,
    If,
    In,
    Inherits,
    Let,
    Loop,
    Pool,
    Then,
    While,
    Case,
    Esac,
    Of,
    New,
    Isvoid,
    Not,
}

/// What a token is, with the text or value that it carries.
#[derive(Clone, Debug, PartialEq, Eq)]
pub enum TokenType {
    /// A reserved word.
    Keyword(Keyword),
    /// An integer literal, as the digits that were written.
    IntConst(String),
    /// `true` or `false`.
    BoolConst(bool),
    /// An identifier that begins with an upper-case letter.
    TypeID(String),
    /// An identifier that begins with a lower-case letter.
    ObjectID(String),
    /// A punctuation character that stands alone.
    SSymbol(char),
    /// The operator `<-`.
    Assign,
    /// The operator `=>`.
    DArrow,
    /// The operator `<=`.
    Le,
    /// A string literal, with its escape sequences resolved.
    StrConst(String),
    /// A lexical error with its message. The scanner never yields this
    /// kind: it reports errors as diagnostics beside the token stream.
    Error(String),
}

/// A token: its kind and the place where it began.
#[derive(Clone, Debug, PartialEq, Eq)]
pub struct Token {
    /// What the token is.
    pub kind: TokenType,
    /// The line on which the token began, counted from 1.
    pub lineno: usize,
    /// The offset of the token's first character, counted from 0.
    pub pos: usize,
}

/// A diagnostic: one lexical error, with the place where it was found.
#[derive(Clone, Debug, PartialEq, Eq)]
pub struct Error {
    /// The line on which the error was found, counted from 1.
    pub lineno: usize,
    /// The offset at which the error was found, counted from 0.
    pub pos: usize,
    /// What went wrong.
    pub msg: String,
}

/// The mathematical value of a [`TokenType`]: text is a sequence of characters.
pub ghost enum SpecTokenType {
    Keyword(Keyword),
    IntConst(Seq<char>),
    BoolConst(bool),
    TypeID(Seq<char>),
    ObjectID(Seq<char>),
    SSymbol(char),
    Assign,
    DArrow,
    Le,
    StrConst(Seq<char>),
    Error(Seq<char>),
}

/// The mathematical value of a [`Token`].
pub ghost struct SpecToken {
    pub kind: SpecTokenType,
    pub lineno: int,
    pub pos: int,
}

/// The mathematical value of an [`Error`].
pub ghost struct SpecError {
    pub lineno: int,
    pub pos: int,
    pub msg: Seq<char>,
}

impl View for TokenType {
    type V = SpecTokenType;

    open spec fn view(&self) -> SpecTokenType {
        match *self {
            TokenType::Keyword(k) => SpecTokenType::Keyword(k),
            TokenType::IntConst(s) => SpecTokenType::IntConst(s@),
            TokenType::BoolConst(b) => SpecTokenType::BoolConst(b),
            TokenType::TypeID(s) => SpecTokenType::TypeID(s@),
            TokenType::ObjectID(s) => SpecTokenType::ObjectID(s@),
            TokenType::SSymbol(c) => SpecTokenType::SSymbol(c),
            TokenType::Assign => SpecTokenType::Assign,
            TokenType::DArrow => SpecTokenType::DArrow,
            TokenType::Le => SpecTokenType::Le,
            TokenType::StrConst(s) => SpecTokenType::StrConst(s@),
            TokenType::Error(s) => SpecTokenType::Error(s@),
        }
    }
}

impl DeepView for TokenType {
    type V = SpecTokenType;

    open spec fn deep_view(&self) -> SpecTokenType {
        self.view()
    }
}

impl View for Token {
    type V = SpecToken;

    open spec fn view(&self) -> SpecToken {
        SpecToken { kind: self.kind@, lineno: self.lineno as int, pos: self.pos as int }
    }
}

impl DeepView for Token {
    type V = SpecToken;

    open spec fn deep_view(&self) -> SpecToken {
        self.view()
    }
}

impl View for Error {
    type V = SpecError;

    open spec fn view(&self) -> SpecError {
        SpecError { lineno: self.lineno as int, pos: self.pos as int, msg: self.msg@ }
    }
}

impl DeepView for Error {
    type V = SpecError;

    open spec fn deep_view(&self) -> SpecError {
        self.view()
    }
}

impl Token {
    /// A token of the given kind that began on line `lineno` at offset `pos`.
    pub fn new(kind: TokenType, lineno: usize, pos: usize) -> (token: Token)
        ensures
            token.kind == kind,
            token.lineno == lineno,
            token.pos == pos,
    {
        Token { kind, lineno, pos }
    }
}

impl Error {
    /// A diagnostic with message `msg` for line `lineno`, offset `pos`.
    pub fn new(lineno: usize, pos: usize, msg: String) -> (error: Error)
        ensures
            error.lineno == lineno,
            error.pos == pos,
            error.msg == msg,
    {
        Error { lineno: lineno, pos: pos, msg: msg }
    }
}

} // verus!
