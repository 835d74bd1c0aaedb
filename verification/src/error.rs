//! Diagnostics: positioned, non-fatal records of what went wrong.

use vstd::prelude::*;
use crate::token::{Token, TokenType, TokenView};

verus! {

/// Why a diagnostic was raised.
#[derive(Debug, Clone, Copy, PartialEq, Eq, Structural)]
pub enum ErrorKind {
    /// The lexer met text that is no token.
    LexError,
    /// The current token is not what the grammar asks for.
    UnexpectedToken,
    /// The tokens ran out while a rule still expected some.
    EndOfInput,
    /// Valid syntax that the parser does not handle yet.
    UnsupportedConstruct,
}

/// One diagnostic. `expected` and `found` are set where a token was tested
/// against a kind.
#[derive(Debug, Clone, PartialEq, Eq)]
pub struct Error {
    pub kind: ErrorKind,
    pub message: String,
    pub line: usize,
    pub expected: Option<TokenType>,
    pub found: Option<TokenType>,
}

/// A diagnostic as plain values.
pub ghost struct ErrorView {
    pub kind: ErrorKind,
    pub message: Seq<char>,
    pub line: usize,
    pub expected: Option<TokenType>,
    pub found: Option<TokenType>,
}

impl View for Error {
    type V = ErrorView;

    open spec fn view(&self) -> ErrorView {
        ErrorView {
            kind: self.kind,
            message: self.message@,
            line: self.line,
            expected: self.expected,
            found: self.found,
        }
    }
}

/// The diagnostic for tokens that ran out on `line`.
pub open spec fn end_of_input(line: usize) -> ErrorView {
    ErrorView {
        kind: ErrorKind::EndOfInput,
        message: "unexpected end of input"@,
        line,
        expected: None,
        found: None,
    }
}

/// The diagnostic for a token of kind `found` where `expected` was asked for.
pub open spec fn unexpected(expected: Option<TokenType>, found: TokenType, line: usize) -> ErrorView {
    ErrorView {
        kind: ErrorKind::UnexpectedToken,
        message: "unexpected token"@,
        line,
        expected,
        found: Some(found),
    }
}

/// The diagnostic for a construct of kind `found` that is not handled yet.
pub open spec fn unsupported(found: TokenType, line: usize) -> ErrorView {
    ErrorView {
        kind: ErrorKind::UnsupportedConstruct,
        message: "construct not supported yet"@,
        line,
        expected: None,
        found: Some(found),
    }
}

/// The diagnostic that an `Error` token turns into.
pub open spec fn lex_error(token: TokenView) -> ErrorView {
    ErrorView {
        kind: ErrorKind::LexError,
        message: token.text(),
        line: token.line,
        expected: None,
        found: Some(token.ttype),
    }
}

/// A diagnostic of kind `kind` at line `pos`, with no token attached.
pub fn error(kind: ErrorKind, pos: usize, message: &str) -> (e: Error)
    ensures
        e@ == (ErrorView { kind, message: message@, line: pos, expected: None, found: None }),
{
    Error { kind, message: message.to_owned(), line: pos, expected: None, found: None }
}

/// A diagnostic of kind `kind` at the line of `token`, which it names as found.
pub fn error_at_token(kind: ErrorKind, token: &Token, message: &str) -> (e: Error)
    ensures
        e@ == (ErrorView {
            kind,
            message: message@,
            line: token.line,
            expected: None,
            found: Some(token.ttype),
        }),
{
    Error {
        kind,
        message: message.to_owned(),
        line: token.line,
        expected: None,
        found: Some(token.ttype),
    }
}

impl Error {
    pub fn end_of_input(line: usize) -> (e: Error)
        ensures
            e@ == end_of_input(line),
    {
        error(ErrorKind::EndOfInput, line, "unexpected end of input")
    }

    pub fn unexpected(expected: Option<TokenType>, found: TokenType, line: usize) -> (e: Error)
        ensures
            e@ == unexpected(expected, found, line),
    {
        Error {
            kind: ErrorKind::UnexpectedToken,
            message: "unexpected token".to_owned(),
            line,
            expected,
            found: Some(found),
        }
    }

    pub fn unsupported(found: TokenType, line: usize) -> (e: Error)
        ensures
            e@ == unsupported(found, line),
    {
        Error {
            kind: ErrorKind::UnsupportedConstruct,
            message: "construct not supported yet".to_owned(),
            line,
            expected: None,
            found: Some(found),
        }
    }

    pub fn lex_error(token: &Token) -> (e: Error)
        ensures
            e@ == lex_error(token@),
    {
        Error {
            kind: ErrorKind::LexError,
            message: token.text(),
            line: token.line,
            expected: None,
            found: Some(token.ttype),
        }
    }
}

} // verus!
