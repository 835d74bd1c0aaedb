//! Statements and the statement parser, which reads literals and `let`.

use vstd::prelude::*;
use crate::cursor::{line_at, spec_expect, Outcome, TokenIter};
use crate::error::{end_of_input, unsupported, Error, ErrorView};
use crate::expr::{Expr, ExprView, Value, ValueView};
use crate::lexer::{
    all_digits, eof_token, is_digit, is_ident_char, is_name, lemma_digits_run, lemma_ident_run,
    scan, spec_scan, spec_token_at, well_formed, Lexer,
};
use crate::token::{spec_keyword, tokens_view, Token, TokenType, TokenView};

verus! {

/// `let name = value`.
#[derive(Debug, PartialEq)]
pub struct Let {
    pub value: Expr,
    pub name: String,
}

#[derive(Debug, PartialEq)]
pub enum Statement {
    Let(Let),
}

pub ghost enum StatementView {
    Let { name: Seq<char>, value: ExprView },
}

impl Statement {
    /// The statement as plain values.
    pub open spec fn view(&self) -> StatementView {
        match self {
            Statement::Let(l) => StatementView::Let { name: l.name@, value: l.value.view() },
        }
    }
}

/// What a digit counts for; nothing for any other character.
pub open spec fn digit_value(c: char) -> nat {
    if is_digit(c) {
        (c as u32 - '0' as u32) as nat
    } else {
        0
    }
}

/// The number that `text` writes in base ten.
pub open spec fn decimal_value(text: Seq<char>) -> nat
    decreases text.len(),
{
    if text.len() == 0 {
        0
    } else {
        decimal_value(text.drop_last()) * 10 + digit_value(text.last())
    }
}

/// The value of a number literal: the integer that it writes, where it is
/// digits alone and fits 128 signed bits; else the text itself, as a
/// floating-point literal.
pub open spec fn spec_number(text: Seq<char>) -> ValueView {
    if all_digits(text) && decimal_value(text) <= i128::MAX {
        ValueView::Int(decimal_value(text) as i128)
    } else {
        ValueView::Float(text)
    }
}

/// The number that a text starts with is at most the number that it writes.
pub proof fn lemma_prefix_value(text: Seq<char>, i: int)
    requires
        0 <= i <= text.len(),
    ensures
        decimal_value(text.subrange(0, i)) <= decimal_value(text),
    decreases text.len() - i,
{
    if i == text.len() {
        assert(text.subrange(0, i) =~= text);
    } else {
        lemma_prefix_value(text, i + 1);
        assert(text.subrange(0, i + 1).drop_last() =~= text.subrange(0, i));
    }
}

/// Reads a number literal.
pub fn parse_number(text: &str) -> (r: Value)
    ensures
        r@ == spec_number(text@),
{
    let n = text.unicode_len();
    if n == 0 {
        return Value::Float(text.to_owned());
    }
    let mut acc: i128 = 0;
    let mut i: usize = 0;
    assert(text@.subrange(0, 0) =~= Seq::<char>::empty());
    while i < n
        invariant
            n == text@.len(),
            n > 0,
            i <= n,
            0 <= acc,
            acc == decimal_value(text@.subrange(0, i as int)),
            forall|k: int| 0 <= k < i ==> is_digit(#[trigger] text@[k]),
        decreases n - i,
    {
        let c = text.get_char(i);
        if !('0' <= c && c <= '9') {
            return Value::Float(text.to_owned());
        }
        let d: i128 = (c as u32 - '0' as u32) as i128;
        proof {
            assert(text@.subrange(0, i + 1).drop_last() =~= text@.subrange(0, i as int));
            assert(text@.subrange(0, i + 1).last() == c);
            lemma_prefix_value(text@, i + 1);
        }
        if acc > (i128::MAX - d) / 10 {
            return Value::Float(text.to_owned());
        }
        acc = acc * 10 + d;
        i = i + 1;
    }
    assert(text@.subrange(0, n as int) =~= text@);
    Value::Int(acc)
}

/// The expression rule at `pos`: one token is consumed, and a literal gives
/// its value. No other expression is handled yet.
pub open spec fn spec_read_expression(tokens: Seq<TokenView>, pos: int) -> Outcome<ExprView> {
    if pos >= tokens.len() || pos < 0 {
        Outcome { pos, result: Err(end_of_input(line_at(tokens, pos))) }
    } else if tokens[pos].ttype == TokenType::Eof {
        Outcome { pos: pos + 1, result: Err(end_of_input(tokens[pos].line)) }
    } else if tokens[pos].ttype == TokenType::Number {
        Outcome { pos: pos + 1, result: Ok(ExprView::Value(spec_number(tokens[pos].text()))) }
    } else if tokens[pos].ttype == TokenType::String {
        Outcome {
            pos: pos + 1,
            result: Ok(ExprView::Value(ValueView::String(tokens[pos].text()))),
        }
    } else {
        Outcome { pos: pos + 1, result: Err(unsupported(tokens[pos].ttype, tokens[pos].line)) }
    }
}

/// The let rule at `pos`: `let` IDENT `=` expression, with nothing behind it.
pub open spec fn spec_let(tokens: Seq<TokenView>, pos: int) -> Outcome<StatementView> {
    let kw = spec_expect(tokens, pos, TokenType::Let);
    match kw.result {
        Err(e) => Outcome { pos: kw.pos, result: Err(e) },
        Ok(_) => {
            let id = spec_expect(tokens, kw.pos, TokenType::Identifier);
            match id.result {
                Err(e) => Outcome { pos: id.pos, result: Err(e) },
                Ok(name) => {
                    let eq = spec_expect(tokens, id.pos, TokenType::Equal);
                    match eq.result {
                        Err(e) => Outcome { pos: eq.pos, result: Err(e) },
                        Ok(_) => {
                            let value = spec_read_expression(tokens, eq.pos);
                            match value.result {
                                Err(e) => Outcome { pos: value.pos, result: Err(e) },
                                Ok(v) => Outcome {
                                    pos: value.pos,
                                    result: Ok(StatementView::Let { name: name.lexeme, value: v }),
                                },
                            }
                        },
                    }
                },
            }
        },
    }
}

/// The statements of a sequence, as plain values.
pub open spec fn statements_view(statements: Seq<Statement>) -> Seq<StatementView> {
    Seq::new(statements.len(), |i: int| statements[i].view())
}

pub struct Parser {
    input: TokenIter,
    ast: Vec<Statement>,
}

impl Parser {
    /// The tokens that this parser reads; no operation changes them.
    pub closed spec fn tokens(self) -> Seq<TokenView> {
        self.input.tokens()
    }

    /// How many tokens were consumed.
    pub closed spec fn pos(self) -> int {
        self.input.pos()
    }

    /// The statements gathered so far.
    pub closed spec fn ast(self) -> Seq<Statement> {
        self.ast@
    }

    /// A parser over the tokens of the lexer's text.
    pub fn new(lexer: Lexer) -> (r: Self)
        ensures
            r.tokens() == scan(lexer.source()),
            well_formed(r.tokens()),
            r.pos() == 0,
            r.ast().len() == 0,
    {
        Parser { input: TokenIter::new(lexer.lex()), ast: Vec::new() }
    }

    /// A parser over tokens that were made elsewhere.
    pub fn from_tokens(tokens: Vec<Token>) -> (r: Self)
        ensures
            r.tokens() == tokens_view(tokens@),
            r.pos() == 0,
            r.ast().len() == 0,
    {
        Parser { input: TokenIter::new(tokens), ast: Vec::new() }
    }

    /// Consumes one token and returns it; past the last token nothing changes
    /// and nothing is returned.
    pub fn advance(&mut self) -> (r: Option<Token>)
        ensures
            final(self).tokens() == old(self).tokens(),
            final(self).ast() == old(self).ast(),
            0 <= old(self).pos() <= old(self).tokens().len(),
            final(self).pos() == crate::cursor::after(old(self).tokens(), old(self).pos()),
            r is Some == (old(self).pos() < old(self).tokens().len()),
            r is Some ==> r->0@ == old(self).tokens()[old(self).pos()],
    {
        self.input.next()
    }

    /// Consumes the current token if it is of kind `ttype`, and returns it;
    /// else consumes nothing and returns nothing.
    pub fn expect(&mut self, ttype: TokenType) -> (r: Option<Token>)
        ensures
            final(self).tokens() == old(self).tokens(),
            final(self).ast() == old(self).ast(),
            final(self).pos() == spec_expect(old(self).tokens(), old(self).pos(), ttype).pos,
            r is Some == spec_expect(old(self).tokens(), old(self).pos(), ttype).result is Ok,
            r is Some ==> 0 <= old(self).pos() < old(self).tokens().len() && r->0@ == old(
                self,
            ).tokens()[old(self).pos()],
    {
        self.input.expect_and_progress(ttype)
    }

    /// Hands out the statements gathered.
    pub fn finish(self) -> (r: Vec<Statement>)
        ensures
            r@ == self.ast(),
    {
        self.ast
    }

    /// Adds a statement to those gathered.
    pub fn push(&mut self, statement: Statement)
        ensures
            final(self).tokens() == old(self).tokens(),
            final(self).pos() == old(self).pos(),
            final(self).ast() == old(self).ast().push(statement),
    {
        self.ast.push(statement);
    }

    /// Reads one expression.
    pub fn read_expression(&mut self) -> (r: Result<Expr, Error>)
        ensures
            final(self).tokens() == old(self).tokens(),
            final(self).ast() == old(self).ast(),
            final(self).pos() == spec_read_expression(old(self).tokens(), old(self).pos()).pos,
            final(self).pos() >= old(self).pos(),
            crate::parser::same_node(
                r,
                spec_read_expression(old(self).tokens(), old(self).pos()).result,
            ),
    {
        let next = match self.input.next() {
            None => {
                return Err(Error::end_of_input(self.input.line()));
            },
            Some(t) => t,
        };
        match next.ttype {
            TokenType::Eof => Err(Error::end_of_input(next.line)),
            TokenType::Number => {
                let text = next.text();
                Ok(Expr::Value(parse_number(text.as_str())))
            },
            TokenType::String => Ok(Expr::Value(Value::String(next.text()))),
            _ => Err(Error::unsupported(next.ttype, next.line)),
        }
    }

    /// Reads one `let` statement. The first token that does not fit ends the
    /// attempt, with its diagnostic.
    pub fn try_let_statement(&mut self) -> (r: Result<Statement, Error>)
        ensures
            final(self).tokens() == old(self).tokens(),
            final(self).ast() == old(self).ast(),
            final(self).pos() == spec_let(old(self).tokens(), old(self).pos()).pos,
            final(self).pos() >= old(self).pos(),
            match (r, spec_let(old(self).tokens(), old(self).pos()).result) {
                (Ok(s), Ok(v)) => s.view() == v,
                (Err(e), Err(f)) => e@ == f,
                _ => false,
            },
    {
        match self.input.expect(TokenType::Let) {
            Err(e) => {
                return Err(e);
            },
            Ok(_) => {},
        }
        let name = match self.input.expect(TokenType::Identifier) {
            Err(e) => {
                return Err(e);
            },
            Ok(t) => t.lexeme,
        };
        match self.input.expect(TokenType::Equal) {
            Err(e) => {
                return Err(e);
            },
            Ok(_) => {},
        }
        let value = match self.read_expression() {
            Err(e) => {
                return Err(e);
            },
            Ok(v) => v,
        };
        Ok(Statement::Let(Let { value, name }))
    }
}

/// `let NAME = NUMBER` gives the statement that binds NAME: to the integer
/// that the number writes, where it is digits alone and fits 128 signed bits,
/// else to the number's text as a floating-point literal.
pub proof fn lemma_let_number(tokens: Seq<TokenView>)
    requires
        tokens.len() >= 4,
        tokens[0].ttype == TokenType::Let,
        tokens[1].ttype == TokenType::Identifier,
        tokens[2].ttype == TokenType::Equal,
        tokens[3].ttype == TokenType::Number,
    ensures
        spec_let(tokens, 0).pos == 4,
        all_digits(tokens[3].text()) && decimal_value(tokens[3].text()) <= i128::MAX
            ==> spec_let(tokens, 0).result == Ok::<StatementView, ErrorView>(
            StatementView::Let {
                name: tokens[1].lexeme,
                value: ExprView::Value(ValueView::Int(decimal_value(tokens[3].text()) as i128)),
            },
        ),
        !(all_digits(tokens[3].text()) && decimal_value(tokens[3].text()) <= i128::MAX)
            ==> spec_let(tokens, 0).result == Ok::<StatementView, ErrorView>(
            StatementView::Let {
                name: tokens[1].lexeme,
                value: ExprView::Value(ValueView::Float(tokens[3].text())),
            },
        ),
{
}

/// The text `let NAME = DIGITS`, for every name and every run of digits, gives
/// the statement that binds the name: to the integer that the digits write,
/// where it fits 128 signed bits, else to the digits as a floating-point
/// literal.
pub proof fn lemma_let_number_text(name: Seq<char>, digits: Seq<char>)
    requires
        is_name(name),
        all_digits(digits),
    ensures
        spec_let(scan("let "@ + name + " = "@ + digits), 0).result == Ok::<
            StatementView,
            ErrorView,
        >(StatementView::Let { name, value: ExprView::Value(spec_number(digits)) }),
        decimal_value(digits) <= i128::MAX ==> spec_number(digits) == ValueView::Int(
            decimal_value(digits) as i128,
        ),
        decimal_value(digits) > i128::MAX ==> spec_number(digits) == ValueView::Float(digits),
{
    reveal_strlit("let ");
    reveal_strlit(" = ");
    reveal_strlit("and");
    reveal_strlit("break");
    reveal_strlit("else");
    reveal_strlit("false");
    reveal_strlit("for");
    reveal_strlit("fn");
    reveal_strlit("if");
    reveal_strlit("or");
    reveal_strlit("return");
    reveal_strlit("true");
    reveal_strlit("let");
    let src = "let "@ + name + " = "@ + digits;
    let n = name.len() as int;
    let d = digits.len() as int;
    assert(src.len() == n + d + 7);
    assert(src[0] == 'l' && src[1] == 'e' && src[2] == 't' && src[3] == ' ');
    assert(src[n + 4] == ' ' && src[n + 5] == '=' && src[n + 6] == ' ');
    assert forall|k: int| 4 <= k < n + 4 implies is_ident_char(#[trigger] src[k]) by {
        assert(src[k] == name[k - 4]);
    }
    assert forall|k: int| n + 7 <= k < n + d + 7 implies is_digit(#[trigger] src[k]) by {
        assert(src[k] == digits[k - n - 7]);
    }
    assert(src[4] == name[0]);
    assert(src[n + 7] == digits[0]);
    lemma_ident_run(src, 0, 3);
    lemma_ident_run(src, 4, n + 4);
    lemma_digits_run(src, n + 7, n + d + 7);
    assert(src.subrange(0, 3) =~= "let"@);
    assert(src.subrange(4, n + 4) =~= name);
    assert(src.subrange(n + 7, n + d + 7) =~= digits);
    assert(spec_keyword("let"@) == Some(TokenType::Let));
    let end = spec_scan(src, n + d + 7, 1);
    assert(end == seq![eof_token(1)]);
    let number = spec_scan(src, n + 7, 1);
    assert(spec_token_at(src, n + 7, 1).1 == n + d + 7);
    assert(number == seq![spec_token_at(src, n + 7, 1).0] + end);
    assert(spec_scan(src, n + 6, 1) == number);
    let equal = spec_scan(src, n + 5, 1);
    assert(equal == seq![spec_token_at(src, n + 5, 1).0] + number);
    assert(spec_scan(src, n + 4, 1) == equal);
    let named = spec_scan(src, 4, 1);
    assert(spec_token_at(src, 4, 1).1 == n + 4);
    assert(named == seq![spec_token_at(src, 4, 1).0] + equal);
    assert(spec_scan(src, 3, 1) == named);
    assert(spec_token_at(src, 0, 1).1 == 3);
    let tokens = scan(src);
    assert(tokens == seq![spec_token_at(src, 0, 1).0] + named);
    assert(tokens.len() == 5);
    assert(tokens[0].ttype == TokenType::Let);
    assert(tokens[1].ttype == TokenType::Identifier);
    assert(tokens[1].lexeme == name);
    assert(tokens[2].ttype == TokenType::Equal);
    assert(tokens[3].ttype == TokenType::Number);
    assert(tokens[3].text() == digits);
    lemma_let_number(tokens);
}

} // verus!
