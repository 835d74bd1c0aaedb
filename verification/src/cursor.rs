//! A reader over a finished token sequence that looks one token ahead and
//! never goes back.

use vstd::prelude::*;
use crate::error::{end_of_input, unexpected, Error, ErrorView};
use crate::token::{tokens_view, Token, TokenType, TokenView};

verus! {

/// Where a rule stopped reading, and what it made of what it read.
pub ghost struct Outcome<T> {
    pub pos: int,
    pub result: Result<T, ErrorView>,
}

/// The token at `pos`, if there is one.
pub open spec fn token_at(tokens: Seq<TokenView>, pos: int) -> Option<TokenView> {
    if 0 <= pos < tokens.len() {
        Some(tokens[pos])
    } else {
        None
    }
}

/// Whether nothing but the end of the input stands at `pos`.
pub open spec fn exhausted(tokens: Seq<TokenView>, pos: int) -> bool {
    pos >= tokens.len() || tokens[pos].ttype == TokenType::Eof
}

/// The position after reading one token at `pos`: one further, unless the
/// tokens are past.
pub open spec fn after(tokens: Seq<TokenView>, pos: int) -> int {
    if pos < tokens.len() {
        pos + 1
    } else {
        pos
    }
}

/// The line that a diagnostic at `pos` reports: that of the token there, else
/// that of the last token, else the first line.
pub open spec fn line_at(tokens: Seq<TokenView>, pos: int) -> usize {
    if 0 <= pos < tokens.len() {
        tokens[pos].line
    } else if tokens.len() > 0 {
        tokens[tokens.len() - 1].line
    } else {
        1
    }
}

/// The diagnostic for a token at `pos` that is not of kind `expected`: the end
/// of the input where the tokens are exhausted, else an unexpected token.
pub open spec fn mismatch(tokens: Seq<TokenView>, pos: int, expected: Option<TokenType>) -> ErrorView {
    if exhausted(tokens, pos) {
        end_of_input(line_at(tokens, pos))
    } else {
        unexpected(expected, tokens[pos].ttype, tokens[pos].line)
    }
}

/// Reading a token of kind `kind` at `pos`: on a match the token is consumed,
/// else nothing is and the mismatch is reported.
pub open spec fn spec_expect(tokens: Seq<TokenView>, pos: int, kind: TokenType) -> Outcome<TokenView> {
    if 0 <= pos < tokens.len() && tokens[pos].ttype == kind {
        Outcome { pos: pos + 1, result: Ok(tokens[pos]) }
    } else {
        Outcome { pos, result: Err(mismatch(tokens, pos, Some(kind))) }
    }
}

/// The cursor: the tokens and how many of them were consumed.
pub struct TokenIter {
    tokens: Vec<Token>,
    index: usize,
}

impl TokenIter {
    #[verifier::type_invariant]
    spec fn inv(self) -> bool {
        self.index <= self.tokens.len()
    }

    /// The whole token sequence; no operation changes it.
    pub closed spec fn tokens(self) -> Seq<TokenView> {
        tokens_view(self.tokens@)
    }

    /// How many tokens were consumed.
    pub closed spec fn pos(self) -> int {
        self.index as int
    }

    pub fn new(tokens: Vec<Token>) -> (r: Self)
        ensures
            r.tokens() == tokens_view(tokens@),
            r.pos() == 0,
    {
        TokenIter { tokens, index: 0 }
    }

    /// The number of tokens consumed so far.
    pub fn position(&self) -> (r: usize)
        ensures
            r == self.pos(),
            r <= self.tokens().len(),
    {
        proof {
            use_type_invariant(self);
        }
        self.index
    }

    /// The token that the next read would give; nothing is consumed.
    pub fn current(&self) -> (r: Option<Token>)
        ensures
            0 <= self.pos() <= self.tokens().len(),
            r is Some == (self.pos() < self.tokens().len()),
            r is Some ==> r->0@ == self.tokens()[self.pos()],
    {
        proof {
            use_type_invariant(self);
        }
        if self.index < self.tokens.len() {
            Some(self.tokens[self.index].clone())
        } else {
            None
        }
    }

    /// Consumes one token and returns it; past the last token nothing changes
    /// and nothing is returned.
    pub fn next(&mut self) -> (r: Option<Token>)
        ensures
            final(self).tokens() == old(self).tokens(),
            0 <= old(self).pos() <= old(self).tokens().len(),
            final(self).pos() == after(old(self).tokens(), old(self).pos()),
            r is Some == (old(self).pos() < old(self).tokens().len()),
            r is Some ==> r->0@ == old(self).tokens()[old(self).pos()],
    {
        proof {
            use_type_invariant(&*self);
        }
        if self.index < self.tokens.len() {
            let token = self.tokens[self.index].clone();
            self.index = self.index + 1;
            Some(token)
        } else {
            None
        }
    }

    /// Consumes one token, if one is left.
    pub fn progress(&mut self)
        ensures
            final(self).tokens() == old(self).tokens(),
            0 <= old(self).pos() <= old(self).tokens().len(),
            final(self).pos() == after(old(self).tokens(), old(self).pos()),
    {
        proof {
            use_type_invariant(&*self);
        }
        if self.index < self.tokens.len() {
            self.index = self.index + 1;
        }
    }

    /// Consumes the current token if it is of kind `kind`, and returns it;
    /// else consumes nothing and returns nothing.
    pub fn expect_and_progress(&mut self, kind: TokenType) -> (r: Option<Token>)
        ensures
            final(self).tokens() == old(self).tokens(),
            0 <= old(self).pos() <= old(self).tokens().len(),
            final(self).pos() == spec_expect(old(self).tokens(), old(self).pos(), kind).pos,
            r is Some == spec_expect(old(self).tokens(), old(self).pos(), kind).result is Ok,
            r is Some ==> r->0@ == old(self).tokens()[old(self).pos()],
    {
        proof {
            use_type_invariant(&*self);
        }
        if self.index < self.tokens.len() && self.tokens[self.index].ttype == kind {
            let token = self.tokens[self.index].clone();
            self.index = self.index + 1;
            Some(token)
        } else {
            None
        }
    }

    /// The diagnostic for the current token where kind `expected` was asked
    /// for; nothing is consumed.
    pub fn mismatch(&self, expected: Option<TokenType>) -> (e: Error)
        ensures
            e@ == mismatch(self.tokens(), self.pos(), expected),
    {
        proof {
            use_type_invariant(self);
        }
        let n = self.tokens.len();
        if self.index < n {
            let t = &self.tokens[self.index];
            if t.ttype == TokenType::Eof {
                Error::end_of_input(t.line)
            } else {
                Error::unexpected(expected, t.ttype, t.line)
            }
        } else if n > 0 {
            Error::end_of_input(self.tokens[n - 1].line)
        } else {
            Error::end_of_input(1)
        }
    }

    /// The line that a diagnostic at the cursor reports.
    pub fn line(&self) -> (r: usize)
        ensures
            r == line_at(self.tokens(), self.pos()),
    {
        proof {
            use_type_invariant(self);
        }
        let n = self.tokens.len();
        if self.index < n {
            self.tokens[self.index].line
        } else if n > 0 {
            self.tokens[n - 1].line
        } else {
            1
        }
    }

    /// The line of the token consumed last.
    pub fn last_line(&self) -> (r: usize)
        ensures
            r == line_at(self.tokens(), self.pos() - 1),
    {
        proof {
            use_type_invariant(self);
        }
        let n = self.tokens.len();
        if self.index > 0 {
            self.tokens[self.index - 1].line
        } else if n > 0 {
            self.tokens[n - 1].line
        } else {
            1
        }
    }

    /// Like `expect_and_progress`, with the diagnostic for a mismatch.
    pub fn expect(&mut self, kind: TokenType) -> (r: Result<Token, Error>)
        ensures
            final(self).tokens() == old(self).tokens(),
            final(self).pos() == spec_expect(old(self).tokens(), old(self).pos(), kind).pos,
            final(self).pos() >= old(self).pos(),
            same_outcome_token(r, spec_expect(old(self).tokens(), old(self).pos(), kind).result),
    {
        match self.expect_and_progress(kind) {
            Some(t) => Ok(t),
            None => Err(self.mismatch(Some(kind))),
        }
    }
}

/// Whether a token or diagnostic that was returned is the one that the
/// grammar gives.
pub open spec fn same_outcome_token(r: Result<Token, Error>, s: Result<TokenView, ErrorView>) -> bool {
    match (r, s) {
        (Ok(t), Ok(u)) => t@ == u,
        (Err(e), Err(f)) => e@ == f,
        _ => false,
    }
}

} // verus!
