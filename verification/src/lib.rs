//! A scanner for the COOL teaching language.
//!
//! The scanner turns a sequence of characters into classified tokens with
//! source positions. Lexical errors never stop a scan: each one is recorded
//! as a positioned diagnostic and scanning resumes behind it.
//!
//! What the scanner produces is defined once, as mathematics over `Seq<char>`,
//! in [`grammar`]; the executable [`scanner::Scanner`] is proved to produce
//! exactly that.

pub mod chars;
pub mod grammar;
pub mod keywords;
pub mod scanner;
pub mod token;
pub mod text;
pub mod theorems;
