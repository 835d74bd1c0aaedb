//! The declaration parser: recursive descent over the token cursor. A rule
//! that fails gives one diagnostic and stops; the top-level loop records it
//! and goes on with the next token that was not consumed.

use vstd::prelude::*;
use crate::cursor::{
    after, exhausted, line_at, mismatch, spec_expect, token_at, Outcome, TokenIter,
};
use crate::error::{end_of_input, lex_error, unexpected, unsupported, Error, ErrorView};
use crate::expr::{Expr, ExprView, Parameters};
use crate::lexer::{scan, well_formed, Lexer};
use crate::token::{tokens_view, Token, TokenType, TokenView};

verus! {

/// What one round of the type-map rule read: the entry, if it read one, and
/// whether another round follows.
pub ghost struct MapStep {
    pub more: bool,
    pub entry: Option<(Seq<char>, Seq<char>)>,
}

/// What the top-level loop makes of a token sequence.
pub ghost struct Parsed {
    pub pos: int,
    pub nodes: Seq<ExprView>,
    pub errors: Seq<ErrorView>,
}

/// The rest of an entry whose first token, `name`, was consumed: a colon and
/// an identifier. The entry's name is the lexeme of `name`, which must be an
/// identifier too.
pub open spec fn spec_type_map_next(tokens: Seq<TokenView>, pos: int, name: TokenView) -> Outcome<
    (Seq<char>, Seq<char>),
> {
    if name.ttype != TokenType::Identifier {
        Outcome {
            pos,
            result: Err(unexpected(Some(TokenType::Identifier), name.ttype, name.line)),
        }
    } else {
        let colon = spec_expect(tokens, pos, TokenType::Colon);
        match colon.result {
            Err(e) => Outcome { pos: colon.pos, result: Err(e) },
            Ok(_) => {
                let ptype = spec_expect(tokens, colon.pos, TokenType::Identifier);
                match ptype.result {
                    Err(e) => Outcome { pos: ptype.pos, result: Err(e) },
                    Ok(t) => Outcome { pos: ptype.pos, result: Ok((name.lexeme, t.lexeme)) },
                }
            },
        }
    }
}

/// What follows an entry: `sep`, after which another round follows, or `end`,
/// which closes the map. Either is consumed; anything else is not, and fails.
pub open spec fn spec_separator(tokens: Seq<TokenView>, pos: int, end: TokenType, sep: TokenType) -> Outcome<
    bool,
> {
    if 0 <= pos < tokens.len() && tokens[pos].ttype == sep {
        Outcome { pos: pos + 1, result: Ok(true) }
    } else if 0 <= pos < tokens.len() && tokens[pos].ttype == end {
        Outcome { pos: pos + 1, result: Ok(false) }
    } else {
        Outcome { pos, result: Err(mismatch(tokens, pos, Some(sep))) }
    }
}

/// One round of the type-map rule, on the token `next` that was just read,
/// with the cursor at `pos` behind it: `end` closes the map, anything else
/// must be an entry and what follows it.
pub open spec fn spec_type_map_helper(
    tokens: Seq<TokenView>,
    pos: int,
    next: Option<TokenView>,
    end: TokenType,
    sep: TokenType,
) -> Outcome<MapStep> {
    match next {
        None => Outcome { pos, result: Err(end_of_input(line_at(tokens, pos))) },
        Some(tk) => if tk.ttype == TokenType::Eof {
            Outcome { pos, result: Err(end_of_input(tk.line)) }
        } else if tk.ttype == end {
            Outcome { pos, result: Ok(MapStep { more: false, entry: None }) }
        } else {
            let entry = spec_type_map_next(tokens, pos, tk);
            match entry.result {
                Err(e) => Outcome { pos: entry.pos, result: Err(e) },
                Ok(en) => {
                    let s = spec_separator(tokens, entry.pos, end, sep);
                    match s.result {
                        Err(e) => Outcome { pos: s.pos, result: Err(e) },
                        Ok(more) => Outcome {
                            pos: s.pos,
                            result: Ok(MapStep { more, entry: Some(en) }),
                        },
                    }
                },
            }
        },
    }
}

/// The type-map rule from `pos` on, with the entries `acc` read so far:
/// `entry (sep entry)* end`, where a `sep` may stand directly before `end`.
/// Each round reads one token and hands it to the rule above; a round that
/// asks for another has read an entry, so the next one starts further on.
pub open spec fn spec_type_map(
    tokens: Seq<TokenView>,
    pos: int,
    end: TokenType,
    sep: TokenType,
    acc: Seq<(Seq<char>, Seq<char>)>,
) -> Outcome<Seq<(Seq<char>, Seq<char>)>>
    decreases tokens.len() - pos,
{
    let step = spec_type_map_helper(tokens, after(tokens, pos), token_at(tokens, pos), end, sep);
    match step.result {
        Err(e) => Outcome { pos: step.pos, result: Err(e) },
        Ok(s) => {
            let entries = match s.entry {
                Some(en) => acc.push(en),
                None => acc,
            };
            if s.more && step.pos > pos {
                spec_type_map(tokens, step.pos, end, sep, entries)
            } else {
                Outcome { pos: step.pos, result: Ok(entries) }
            }
        },
    }
}

/// The return-type rule at `pos`: an opening brace, which is left in place,
/// means none; `-`, `>` and an identifier name one. After a `-` two tokens are
/// consumed before they are tested.
pub open spec fn spec_return_type(tokens: Seq<TokenView>, pos: int) -> Outcome<Option<Seq<char>>> {
    if exhausted(tokens, pos) || pos < 0 {
        Outcome { pos, result: Err(end_of_input(line_at(tokens, pos))) }
    } else if tokens[pos].ttype == TokenType::LeftBrace {
        Outcome { pos, result: Ok(None) }
    } else if tokens[pos].ttype == TokenType::Minus {
        if pos + 1 >= tokens.len() {
            Outcome { pos: pos + 1, result: Err(end_of_input(line_at(tokens, pos + 1))) }
        } else if tokens[pos + 1].ttype == TokenType::Eof {
            Outcome { pos: pos + 2, result: Err(end_of_input(tokens[pos + 1].line)) }
        } else if pos + 2 >= tokens.len() {
            Outcome { pos: pos + 2, result: Err(end_of_input(line_at(tokens, pos + 2))) }
        } else if tokens[pos + 2].ttype == TokenType::Eof {
            Outcome { pos: pos + 3, result: Err(end_of_input(tokens[pos + 2].line)) }
        } else if tokens[pos + 1].ttype != TokenType::Greater {
            Outcome {
                pos: pos + 3,
                result: Err(
                    unexpected(
                        Some(TokenType::Greater),
                        tokens[pos + 1].ttype,
                        tokens[pos + 1].line,
                    ),
                ),
            }
        } else if tokens[pos + 2].ttype != TokenType::Identifier {
            Outcome {
                pos: pos + 3,
                result: Err(
                    unexpected(
                        Some(TokenType::Identifier),
                        tokens[pos + 2].ttype,
                        tokens[pos + 2].line,
                    ),
                ),
            }
        } else {
            Outcome { pos: pos + 3, result: Ok(Some(tokens[pos + 2].lexeme)) }
        }
    } else {
        Outcome {
            pos,
            result: Err(unexpected(Some(TokenType::LeftBrace), tokens[pos].ttype, tokens[pos].line)),
        }
    }
}

/// The block rule from `pos` on: every token up to and with the first closing
/// brace is consumed. The scan is flat: braces that open inside are not
/// counted, so the first closing brace ends the block. The block it gives is
/// empty.
pub open spec fn spec_block(tokens: Seq<TokenView>, pos: int) -> Outcome<ExprView>
    decreases tokens.len() - pos,
{
    if pos >= tokens.len() || pos < 0 {
        Outcome { pos, result: Err(end_of_input(line_at(tokens, pos))) }
    } else if tokens[pos].ttype == TokenType::RightBrace {
        Outcome { pos: pos + 1, result: Ok(ExprView::Block(Seq::empty())) }
    } else if tokens[pos].ttype == TokenType::Eof {
        Outcome { pos: pos + 1, result: Err(end_of_input(tokens[pos].line)) }
    } else {
        spec_block(tokens, pos + 1)
    }
}

/// The name of the return type of a function that declares none.
pub open spec fn void_name() -> Seq<char> {
    "void"@
}

/// The function rule behind the keyword `fn`:
/// IDENT `(` type-map `)` [`->` IDENT] block.
pub open spec fn spec_function(tokens: Seq<TokenView>, pos: int) -> Outcome<ExprView> {
    let id = spec_expect(tokens, pos, TokenType::Identifier);
    match id.result {
        Err(e) => Outcome { pos: id.pos, result: Err(e) },
        Ok(name) => {
            let lp = spec_expect(tokens, id.pos, TokenType::LeftParen);
            match lp.result {
                Err(e) => Outcome { pos: lp.pos, result: Err(e) },
                Ok(_) => {
                    let pm = spec_type_map(
                        tokens,
                        lp.pos,
                        TokenType::RightParen,
                        TokenType::Comma,
                        Seq::empty(),
                    );
                    match pm.result {
                        Err(e) => Outcome { pos: pm.pos, result: Err(e) },
                        Ok(params) => {
                            let rt = spec_return_type(tokens, pm.pos);
                            match rt.result {
                                Err(e) => Outcome { pos: rt.pos, result: Err(e) },
                                Ok(ret) => {
                                    let bl = spec_block(tokens, rt.pos);
                                    match bl.result {
                                        Err(e) => Outcome { pos: bl.pos, result: Err(e) },
                                        Ok(body) => Outcome {
                                            pos: bl.pos,
                                            result: Ok(
                                                ExprView::Function {
                                                    name: name.lexeme,
                                                    rettype: match ret {
                                                        Some(r) => r,
                                                        None => void_name(),
                                                    },
                                                    params,
                                                    body: Box::new(body),
                                                },
                                            ),
                                        },
                                    }
                                },
                            }
                        },
                    }
                },
            }
        },
    }
}

/// The rule for a keyword that was just consumed: `fn` opens a function, no
/// other keyword is handled yet.
pub open spec fn spec_keyword_rule(tokens: Seq<TokenView>, pos: int, kw: TokenType) -> Outcome<ExprView> {
    if kw == TokenType::Fn {
        spec_function(tokens, pos)
    } else {
        Outcome { pos, result: Err(unsupported(kw, line_at(tokens, pos - 1))) }
    }
}

/// The rule for a top-level token that was just consumed: a keyword opens a
/// declaration, an `Error` token turns into its diagnostic, and nothing else
/// may stand at top level.
pub open spec fn spec_parse_next(tokens: Seq<TokenView>, pos: int, token: TokenView) -> Outcome<ExprView> {
    if token.ttype.spec_is_keyword() {
        spec_keyword_rule(tokens, pos, token.ttype)
    } else if token.ttype == TokenType::Error {
        Outcome { pos, result: Err(lex_error(token)) }
    } else {
        Outcome { pos, result: Err(unexpected(None, token.ttype, token.line)) }
    }
}

/// The top-level loop from `pos` on, with what was gathered so far: each round
/// consumes one token and gives it to the rule above, until the tokens are
/// past or the end marker was consumed. The next round starts where the rule
/// stopped, which is behind the token it was given and within the tokens.
pub open spec fn spec_parse(
    tokens: Seq<TokenView>,
    pos: int,
    nodes: Seq<ExprView>,
    errors: Seq<ErrorView>,
) -> Parsed
    decreases tokens.len() - pos,
{
    if pos >= tokens.len() || pos < 0 {
        Parsed { pos, nodes, errors }
    } else if tokens[pos].ttype == TokenType::Eof {
        Parsed { pos: pos + 1, nodes, errors }
    } else {
        let step = spec_parse_next(tokens, pos + 1, tokens[pos]);
        let found = match step.result {
            Ok(n) => (nodes.push(n), errors),
            Err(e) => (nodes, errors.push(e)),
        };
        if pos < step.pos <= tokens.len() {
            spec_parse(tokens, step.pos, found.0, found.1)
        } else {
            Parsed { pos: step.pos, nodes: found.0, errors: found.1 }
        }
    }
}

/// The nodes of a sequence, as plain values.
pub open spec fn nodes_view(nodes: Seq<Expr>) -> Seq<ExprView> {
    Seq::new(nodes.len(), |i: int| nodes[i].view())
}

/// The diagnostics of a sequence, as plain values.
pub open spec fn errors_view(errors: Seq<Error>) -> Seq<ErrorView> {
    Seq::new(errors.len(), |i: int| errors[i]@)
}

/// Whether a node or diagnostic that was returned is the one that the grammar
/// gives.
pub open spec fn same_node(r: Result<Expr, Error>, s: Result<ExprView, ErrorView>) -> bool {
    match (r, s) {
        (Ok(e), Ok(v)) => e.view() == v,
        (Err(e), Err(f)) => e@ == f,
        _ => false,
    }
}

pub struct Parser {
    pub tokens: TokenIter,
    pub ast: Vec<Expr>,
}

impl Parser {
    /// A parser over the tokens of a source text.
    pub fn new(input: &str) -> (r: Self)
        ensures
            r.tokens.tokens() == scan(input@),
            well_formed(r.tokens.tokens()),
            r.tokens.pos() == 0,
            r.ast@.len() == 0,
    {
        let tokens = Lexer::new(input).lex();
        Parser { tokens: TokenIter::new(tokens), ast: Vec::new() }
    }

    /// A parser over tokens that were made elsewhere.
    pub fn from_tokens(tokens: Vec<Token>) -> (r: Self)
        ensures
            r.tokens.tokens() == tokens_view(tokens@),
            r.tokens.pos() == 0,
            r.ast@.len() == 0,
    {
        Parser { tokens: TokenIter::new(tokens), ast: Vec::new() }
    }

    /// Parses the rest of an entry of a type map whose first token is `token`.
    pub fn try_type_map_next(&mut self, token: Token) -> (r: Result<(String, String), Error>)
        ensures
            final(self).tokens.tokens() == old(self).tokens.tokens(),
            final(self).ast == old(self).ast,
            final(self).tokens.pos() >= old(self).tokens.pos(),
            final(self).tokens.pos() == spec_type_map_next(
                old(self).tokens.tokens(),
                old(self).tokens.pos(),
                token@,
            ).pos,
            match (
                r,
                spec_type_map_next(old(self).tokens.tokens(), old(self).tokens.pos(), token@).result,
            ) {
                (Ok(p), Ok(q)) => p.0@ == q.0 && p.1@ == q.1,
                (Err(e), Err(f)) => e@ == f,
                _ => false,
            },
    {
        if token.ttype != TokenType::Identifier {
            return Err(Error::unexpected(Some(TokenType::Identifier), token.ttype, token.line));
        }
        match self.tokens.expect(TokenType::Colon) {
            Err(e) => {
                return Err(e);
            },
            Ok(_) => {},
        }
        let ptype = match self.tokens.expect(TokenType::Identifier) {
            Err(e) => {
                return Err(e);
            },
            Ok(t) => t,
        };
        Ok((token.lexeme, ptype.lexeme))
    }

    /// One round of the type-map rule on the token `next` that was just read.
    /// An entry that it reads is added to `result`; the answer says whether
    /// another round follows.
    pub fn try_type_map_helper(
        &mut self,
        result: &mut Parameters,
        next: Option<Token>,
        end: TokenType,
        sep: TokenType,
    ) -> (r: Result<bool, Error>)
        ensures
            final(self).tokens.tokens() == old(self).tokens.tokens(),
            final(self).ast == old(self).ast,
            final(self).tokens.pos() >= old(self).tokens.pos(),
            final(self).tokens.pos() == spec_type_map_helper(
                old(self).tokens.tokens(),
                old(self).tokens.pos(),
                match next {
                    Some(t) => Some(t@),
                    None => None,
                },
                end,
                sep,
            ).pos,
            match (
                r,
                spec_type_map_helper(
                    old(self).tokens.tokens(),
                    old(self).tokens.pos(),
                    match next {
                        Some(t) => Some(t@),
                        None => None,
                    },
                    end,
                    sep,
                ).result,
            ) {
                (Ok(more), Ok(s)) => more == s.more && final(result)@ == (match s.entry {
                    Some(en) => old(result)@.push(en),
                    None => old(result)@,
                }),
                (Err(e), Err(f)) => e@ == f && final(result)@ == old(result)@,
                _ => false,
            },
    {
        let tk = match next {
            None => {
                return Err(Error::end_of_input(self.tokens.line()));
            },
            Some(tk) => tk,
        };
        if tk.ttype == TokenType::Eof {
            return Err(Error::end_of_input(tk.line));
        }
        if tk.ttype == end {
            return Ok(false);
        }
        let entry = match self.try_type_map_next(tk) {
            Err(e) => {
                return Err(e);
            },
            Ok(entry) => entry,
        };
        let more = match self.tokens.expect_and_progress(sep) {
            Some(_) => true,
            None => match self.tokens.expect_and_progress(end) {
                Some(_) => false,
                None => {
                    return Err(self.tokens.mismatch(Some(sep)));
                },
            },
        };
        result.insert(entry.0, entry.1);
        Ok(more)
    }

    /// Parses a type map, `name: type` entries with `sep` between them, up to
    /// and with `end`:
    /// ```text
    /// fn test(a: i32, b: f64)      sep = ","  end = ")"
    /// type Sum = {a: i32, b: f64}  sep = ","  end = "}"
    /// type Alg = {a: i32 | b: f64} sep = "|"  end = "}"
    /// ```
    pub fn try_type_map(&mut self, end: TokenType, sep: TokenType) -> (r: Result<Parameters, Error>)
        ensures
            final(self).tokens.tokens() == old(self).tokens.tokens(),
            final(self).ast == old(self).ast,
            final(self).tokens.pos() >= old(self).tokens.pos(),
            final(self).tokens.pos() == spec_type_map(
                old(self).tokens.tokens(),
                old(self).tokens.pos(),
                end,
                sep,
                Seq::empty(),
            ).pos,
            match (
                r,
                spec_type_map(
                    old(self).tokens.tokens(),
                    old(self).tokens.pos(),
                    end,
                    sep,
                    Seq::empty(),
                ).result,
            ) {
                (Ok(p), Ok(q)) => p@ == q,
                (Err(e), Err(f)) => e@ == f,
                _ => false,
            },
    {
        let mut result = Parameters::new();
        loop
            invariant
                self.tokens.tokens() == old(self).tokens.tokens(),
                self.ast == old(self).ast,
                self.tokens.pos() >= old(self).tokens.pos(),
                spec_type_map(self.tokens.tokens(), self.tokens.pos(), end, sep, result@)
                    == spec_type_map(
                    old(self).tokens.tokens(),
                    old(self).tokens.pos(),
                    end,
                    sep,
                    Seq::empty(),
                ),
            decreases self.tokens.tokens().len() - self.tokens.pos(),
        {
            let ghost before = self.tokens.pos();
            let token = self.tokens.next();
            match self.try_type_map_helper(&mut result, token, end, sep) {
                Err(e) => {
                    return Err(e);
                },
                Ok(more) => {
                    if !more {
                        return Ok(result);
                    }
                    assert(self.tokens.pos() > before);
                },
            }
        }
    }

    /// Parses the return type of a function: `None` where it declares none.
    /// ```text
    /// fn main() ...                      None
    /// fn test(a: i32, b: f64) -> i32 ... Some("i32")
    /// ```
    pub fn try_function_return_type(&mut self) -> (r: Result<Option<String>, Error>)
        ensures
            final(self).tokens.tokens() == old(self).tokens.tokens(),
            final(self).ast == old(self).ast,
            final(self).tokens.pos() >= old(self).tokens.pos(),
            final(self).tokens.pos() == spec_return_type(
                old(self).tokens.tokens(),
                old(self).tokens.pos(),
            ).pos,
            match (r, spec_return_type(old(self).tokens.tokens(), old(self).tokens.pos()).result) {
                (Ok(Some(p)), Ok(Some(q))) => p@ == q,
                (Ok(None), Ok(None)) => true,
                (Err(e), Err(f)) => e@ == f,
                _ => false,
            },
    {
        let token = match self.tokens.current() {
            None => {
                return Err(self.tokens.mismatch(None));
            },
            Some(t) => t,
        };
        if token.ttype == TokenType::Eof {
            return Err(Error::end_of_input(token.line));
        } else if token.ttype == TokenType::LeftBrace {
            return Ok(None);
        } else if token.ttype == TokenType::Minus {
            self.tokens.progress();
            let more_token = match self.tokens.next() {
                None => {
                    return Err(self.tokens.mismatch(None));
                },
                Some(t) => t,
            };
            if more_token.ttype == TokenType::Eof {
                return Err(Error::end_of_input(more_token.line));
            }
            let type_identifier = match self.tokens.next() {
                None => {
                    return Err(self.tokens.mismatch(None));
                },
                Some(t) => t,
            };
            if type_identifier.ttype == TokenType::Eof {
                return Err(Error::end_of_input(type_identifier.line));
            }
            if more_token.ttype != TokenType::Greater {
                return Err(
                    Error::unexpected(
                        Some(TokenType::Greater),
                        more_token.ttype,
                        more_token.line,
                    ),
                );
            }
            if type_identifier.ttype != TokenType::Identifier {
                return Err(
                    Error::unexpected(
                        Some(TokenType::Identifier),
                        type_identifier.ttype,
                        type_identifier.line,
                    ),
                );
            }
            return Ok(Some(type_identifier.lexeme));
        }
        Err(Error::unexpected(Some(TokenType::LeftBrace), token.ttype, token.line))
    }

    /// Parses a block: consumes up to and with the first closing brace.
    pub fn try_block(&mut self) -> (r: Result<Expr, Error>)
        ensures
            final(self).tokens.tokens() == old(self).tokens.tokens(),
            final(self).ast == old(self).ast,
            final(self).tokens.pos() >= old(self).tokens.pos(),
            final(self).tokens.pos() == spec_block(
                old(self).tokens.tokens(),
                old(self).tokens.pos(),
            ).pos,
            same_node(r, spec_block(old(self).tokens.tokens(), old(self).tokens.pos()).result),
    {
        loop
            invariant
                self.tokens.tokens() == old(self).tokens.tokens(),
                self.ast == old(self).ast,
                self.tokens.pos() >= old(self).tokens.pos(),
                spec_block(self.tokens.tokens(), self.tokens.pos()) == spec_block(
                    old(self).tokens.tokens(),
                    old(self).tokens.pos(),
                ),
            decreases self.tokens.tokens().len() - self.tokens.pos(),
        {
            match self.tokens.next() {
                Some(next) => {
                    if next.ttype == TokenType::RightBrace {
                        let block = Expr::Block(Vec::new());
                        assert(block.view() == ExprView::Block(Seq::empty())) by {
                            assert(block.view()->Block_0 =~= Seq::<ExprView>::empty());
                        }
                        return Ok(block);
                    }
                    if next.ttype == TokenType::Eof {
                        return Err(Error::end_of_input(next.line));
                    }
                },
                None => {
                    return Err(self.tokens.mismatch(None));
                },
            }
        }
    }

    /// Parses a function declaration behind its keyword.
    /// ```text
    /// fn main() {
    /// }
    /// ```
    /// gives
    /// ```text
    /// Function { name: "main", rettype: "void", params: {}, body: Block([]) }
    /// ```
    pub fn try_function(&mut self) -> (r: Result<Expr, Error>)
        ensures
            final(self).tokens.tokens() == old(self).tokens.tokens(),
            final(self).ast == old(self).ast,
            final(self).tokens.pos() >= old(self).tokens.pos(),
            final(self).tokens.pos() == spec_function(
                old(self).tokens.tokens(),
                old(self).tokens.pos(),
            ).pos,
            same_node(r, spec_function(old(self).tokens.tokens(), old(self).tokens.pos()).result),
    {
        let identifier = match self.tokens.expect(TokenType::Identifier) {
            Err(e) => {
                return Err(e);
            },
            Ok(t) => t,
        };
        match self.tokens.expect(TokenType::LeftParen) {
            Err(e) => {
                return Err(e);
            },
            Ok(_) => {},
        }
        let name = identifier.lexeme;
        let params = match self.try_type_map(TokenType::RightParen, TokenType::Comma) {
            Err(e) => {
                return Err(e);
            },
            Ok(p) => p,
        };
        let rettype = match self.try_function_return_type() {
            Err(e) => {
                return Err(e);
            },
            Ok(Some(r)) => r,
            Ok(None) => "void".to_owned(),
        };
        let body = match self.try_block() {
            Err(e) => {
                return Err(e);
            },
            Ok(b) => b,
        };
        Ok(Expr::Function { name, rettype, params, body: Box::new(body) })
    }

    /// Parses an expression up to a token of kind `until`. No expression is
    /// handled here yet: the answer is always the diagnostic that says so, and
    /// nothing is consumed.
    pub fn try_value_until(&mut self, until: TokenType) -> (r: Result<Expr, Error>)
        ensures
            *final(self) == *old(self),
            r is Err,
            r->Err_0@ == unsupported(until, line_at(old(self).tokens.tokens(), old(self).tokens.pos())),
    {
        Err(Error::unsupported(until, self.tokens.line()))
    }

    /// Parses what the keyword `kw`, which was just consumed, opens.
    pub fn try_keyword(&mut self, kw: TokenType) -> (r: Result<Expr, Error>)
        ensures
            final(self).tokens.tokens() == old(self).tokens.tokens(),
            final(self).ast == old(self).ast,
            final(self).tokens.pos() >= old(self).tokens.pos(),
            final(self).tokens.pos() == spec_keyword_rule(
                old(self).tokens.tokens(),
                old(self).tokens.pos(),
                kw,
            ).pos,
            same_node(
                r,
                spec_keyword_rule(old(self).tokens.tokens(), old(self).tokens.pos(), kw).result,
            ),
    {
        match kw {
            TokenType::Fn => self.try_function(),
            _ => Err(Error::unsupported(kw, self.tokens.last_line())),
        }
    }

    /// Parses the top-level form that `token`, which was just consumed, opens.
    pub fn parse_next(&mut self, token: Token) -> (r: Result<Expr, Error>)
        ensures
            final(self).tokens.tokens() == old(self).tokens.tokens(),
            final(self).ast == old(self).ast,
            final(self).tokens.pos() >= old(self).tokens.pos(),
            final(self).tokens.pos() == spec_parse_next(
                old(self).tokens.tokens(),
                old(self).tokens.pos(),
                token@,
            ).pos,
            same_node(
                r,
                spec_parse_next(old(self).tokens.tokens(), old(self).tokens.pos(), token@).result,
            ),
    {
        if token.ttype.is_keyword() {
            self.try_keyword(token.ttype)
        } else if token.ttype == TokenType::Error {
            Err(Error::lex_error(&token))
        } else {
            Err(Error::unexpected(None, token.ttype, token.line))
        }
    }

    /// Parses the tokens that are left. Each node is added to the tree; the
    /// diagnostics are returned, in the order in which they arose.
    pub fn parse(&mut self) -> (errors: Vec<Error>)
        ensures
            final(self).tokens.tokens() == old(self).tokens.tokens(),
            final(self).tokens.pos() == spec_parse(
                old(self).tokens.tokens(),
                old(self).tokens.pos(),
                nodes_view(old(self).ast@),
                Seq::empty(),
            ).pos,
            nodes_view(final(self).ast@) == spec_parse(
                old(self).tokens.tokens(),
                old(self).tokens.pos(),
                nodes_view(old(self).ast@),
                Seq::empty(),
            ).nodes,
            errors_view(errors@) == spec_parse(
                old(self).tokens.tokens(),
                old(self).tokens.pos(),
                nodes_view(old(self).ast@),
                Seq::empty(),
            ).errors,
            final(self).tokens.pos() >= old(self).tokens.pos(),
            final(self).ast@.len() >= old(self).ast@.len(),
    {
        let mut errors: Vec<Error> = Vec::new();
        assert(errors_view(errors@) =~= Seq::<ErrorView>::empty());
        loop
            invariant
                self.tokens.tokens() == old(self).tokens.tokens(),
                self.tokens.pos() >= old(self).tokens.pos(),
                self.ast@.len() >= old(self).ast@.len(),
                spec_parse(
                    self.tokens.tokens(),
                    self.tokens.pos(),
                    nodes_view(self.ast@),
                    errors_view(errors@),
                ) == spec_parse(
                    old(self).tokens.tokens(),
                    old(self).tokens.pos(),
                    nodes_view(old(self).ast@),
                    Seq::empty(),
                ),
            decreases self.tokens.tokens().len() - self.tokens.pos(),
        {
            let ghost nodes_before = self.ast@;
            let ghost errors_before = errors@;
            let token = match self.tokens.next() {
                None => {
                    return errors;
                },
                Some(t) => t,
            };
            if token.ttype == TokenType::Eof {
                return errors;
            }
            let r = self.parse_next(token);
            let _ = self.tokens.position();
            match r {
                Ok(e) => {
                    self.ast.push(e);
                    assert(nodes_view(self.ast@) =~= nodes_view(nodes_before).push(e.view()));
                },
                Err(e) => {
                    errors.push(e);
                    assert(errors_view(errors@) =~= errors_view(errors_before).push(e@));
                },
            }
        }
    }
}

/// What parsing a source text gives: the top-level loop over its tokens.
pub open spec fn spec_parse_source(src: Seq<char>) -> Parsed {
    spec_parse(scan(src), 0, Seq::empty(), Seq::empty())
}

/// Parses a source text: the tree, and the diagnostics in the order in which
/// they arose. A diagnostic never stops the parse.
pub fn parse(source: &str) -> (r: (Vec<Expr>, Vec<Error>))
    ensures
        nodes_view(r.0@) == spec_parse_source(source@).nodes,
        errors_view(r.1@) == spec_parse_source(source@).errors,
{
    let mut parser = Parser::new(source);
    assert(nodes_view(parser.ast@) =~= Seq::<ExprView>::empty());
    let errors = parser.parse();
    (parser.ast, errors)
}

} // verus!
