//! What the parser is proved to do on declarations of a given shape, as
//! tokens and as text.

use vstd::prelude::*;
use crate::error::{ErrorKind, ErrorView};
use crate::expr::{entries_map, ExprView};
use crate::lexer::{
    eof_token, ident_end, is_ident_char, is_name, lemma_ident_run, scan, single, spec_scan,
    spec_token_at,
};
use crate::cursor::{after, spec_expect, token_at};
use crate::parser::{
    spec_block, spec_function, spec_parse, spec_parse_next, spec_parse_source, spec_return_type,
    spec_type_map, spec_type_map_helper, void_name,
};
use crate::token::{spec_keyword, TokenType, TokenView};

verus! {

/// The block rule moves the cursor forward only, and never past the tokens.
pub proof fn lemma_block_in_range(tokens: Seq<TokenView>, pos: int)
    requires
        0 <= pos <= tokens.len(),
    ensures
        pos <= spec_block(tokens, pos).pos <= tokens.len(),
    decreases tokens.len() - pos,
{
    if pos < tokens.len() && tokens[pos].ttype != TokenType::RightBrace && tokens[pos].ttype
        != TokenType::Eof {
        lemma_block_in_range(tokens, pos + 1);
    }
}

/// The type-map rule moves the cursor forward only, and never past the
/// tokens.
pub proof fn lemma_type_map_in_range(
    tokens: Seq<TokenView>,
    pos: int,
    end: TokenType,
    sep: TokenType,
    acc: Seq<(Seq<char>, Seq<char>)>,
)
    requires
        0 <= pos <= tokens.len(),
    ensures
        pos <= spec_type_map(tokens, pos, end, sep, acc).pos <= tokens.len(),
    decreases tokens.len() - pos,
{
    let step = spec_type_map_helper(tokens, after(tokens, pos), token_at(tokens, pos), end, sep);
    assert(pos <= step.pos <= tokens.len());
    match step.result {
        Err(_) => {},
        Ok(s) => {
            if s.more && step.pos > pos {
                let entries = match s.entry {
                    Some(en) => acc.push(en),
                    None => acc,
                };
                lemma_type_map_in_range(tokens, step.pos, end, sep, entries);
            }
        },
    }
}

/// The rule for a top-level token moves the cursor forward only, and never
/// past the tokens.
pub proof fn lemma_parse_next_in_range(tokens: Seq<TokenView>, pos: int, token: TokenView)
    requires
        0 <= pos <= tokens.len(),
    ensures
        pos <= spec_parse_next(tokens, pos, token).pos <= tokens.len(),
{
    if token.ttype == TokenType::Fn {
        let id = spec_expect(tokens, pos, TokenType::Identifier);
        let lp = spec_expect(tokens, id.pos, TokenType::LeftParen);
        if id.result is Ok && lp.result is Ok {
            let pm = spec_type_map(
                tokens,
                lp.pos,
                TokenType::RightParen,
                TokenType::Comma,
                Seq::empty(),
            );
            lemma_type_map_in_range(
                tokens,
                lp.pos,
                TokenType::RightParen,
                TokenType::Comma,
                Seq::empty(),
            );
            let rt = spec_return_type(tokens, pm.pos);
            if pm.result is Ok && rt.result is Ok {
                lemma_block_in_range(tokens, rt.pos);
            }
        }
    }
}

/// The top-level loop moves the cursor forward only, and never past the
/// tokens. It only adds to the nodes and to the diagnostics: what was
/// gathered before stays, in its order.
pub proof fn lemma_parse_appends(
    tokens: Seq<TokenView>,
    pos: int,
    nodes: Seq<ExprView>,
    errors: Seq<ErrorView>,
)
    requires
        0 <= pos <= tokens.len(),
    ensures
        pos <= spec_parse(tokens, pos, nodes, errors).pos <= tokens.len(),
        nodes.is_prefix_of(spec_parse(tokens, pos, nodes, errors).nodes),
        errors.is_prefix_of(spec_parse(tokens, pos, nodes, errors).errors),
    decreases tokens.len() - pos,
{
    if pos < tokens.len() && tokens[pos].ttype != TokenType::Eof {
        let step = spec_parse_next(tokens, pos + 1, tokens[pos]);
        lemma_parse_next_in_range(tokens, pos + 1, tokens[pos]);
        match step.result {
            Ok(n) => {
                lemma_parse_appends(tokens, step.pos, nodes.push(n), errors);
            },
            Err(e) => {
                lemma_parse_appends(tokens, step.pos, nodes, errors.push(e));
            },
        }
    }
}

/// Whether the tokens end at `pos`: nothing is left, or the end marker alone.
pub open spec fn at_end(tokens: Seq<TokenView>, pos: int) -> bool {
    pos >= tokens.len() || (pos == tokens.len() - 1 && tokens[pos].ttype == TokenType::Eof)
}

/// Whether the tokens are exactly `n` tokens and, at most, the end marker.
pub open spec fn ends_after(tokens: Seq<TokenView>, n: int) -> bool {
    tokens.len() >= n && at_end(tokens, n)
}

/// A declaration with no parameter, no return type and an empty body,
/// `fn NAME ( ) { }`, parses to one function of that name which takes
/// nothing, returns "void" and has an empty body; no diagnostic arises.
pub proof fn lemma_empty_function(tokens: Seq<TokenView>)
    requires
        ends_after(tokens, 6),
        tokens[0].ttype == TokenType::Fn,
        tokens[1].ttype == TokenType::Identifier,
        tokens[2].ttype == TokenType::LeftParen,
        tokens[3].ttype == TokenType::RightParen,
        tokens[4].ttype == TokenType::LeftBrace,
        tokens[5].ttype == TokenType::RightBrace,
    ensures
        spec_parse(tokens, 0, Seq::empty(), Seq::empty()).nodes == seq![
            ExprView::Function {
                name: tokens[1].lexeme,
                rettype: void_name(),
                params: Seq::empty(),
                body: Box::new(ExprView::Block(Seq::empty())),
            },
        ],
        spec_parse(tokens, 0, Seq::empty(), Seq::empty()).errors == Seq::<ErrorView>::empty(),
{
    reveal_with_fuel(spec_parse, 3);
    reveal_with_fuel(spec_type_map, 2);
    reveal_with_fuel(spec_block, 3);
    let f = spec_function(tokens, 1);
    assert(f.pos == 6);
    assert(f.result is Ok);
    assert(Seq::<ExprView>::empty().push(f.result->Ok_0) =~= seq![f.result->Ok_0]);
}

/// A declaration with two parameters and a return type,
/// `fn NAME ( a : T1 , b : T2 ) -> R { }`, parses to one function whose
/// parameters are a of T1 and b of T2, as a mapping whatever their order, and
/// whose return type is R; no diagnostic arises.
pub proof fn lemma_two_parameters(tokens: Seq<TokenView>)
    requires
        ends_after(tokens, 16),
        tokens[0].ttype == TokenType::Fn,
        tokens[1].ttype == TokenType::Identifier,
        tokens[2].ttype == TokenType::LeftParen,
        tokens[3].ttype == TokenType::Identifier,
        tokens[4].ttype == TokenType::Colon,
        tokens[5].ttype == TokenType::Identifier,
        tokens[6].ttype == TokenType::Comma,
        tokens[7].ttype == TokenType::Identifier,
        tokens[8].ttype == TokenType::Colon,
        tokens[9].ttype == TokenType::Identifier,
        tokens[10].ttype == TokenType::RightParen,
        tokens[11].ttype == TokenType::Minus,
        tokens[12].ttype == TokenType::Greater,
        tokens[13].ttype == TokenType::Identifier,
        tokens[14].ttype == TokenType::LeftBrace,
        tokens[15].ttype == TokenType::RightBrace,
    ensures
        spec_parse(tokens, 0, Seq::empty(), Seq::empty()).nodes == seq![
            ExprView::Function {
                name: tokens[1].lexeme,
                rettype: tokens[13].lexeme,
                params: seq![
                    (tokens[3].lexeme, tokens[5].lexeme),
                    (tokens[7].lexeme, tokens[9].lexeme),
                ],
                body: Box::new(ExprView::Block(Seq::empty())),
            },
        ],
        entries_map(
            seq![(tokens[3].lexeme, tokens[5].lexeme), (tokens[7].lexeme, tokens[9].lexeme)],
        ) == Map::<Seq<char>, Seq<char>>::empty().insert(
            tokens[3].lexeme,
            tokens[5].lexeme,
        ).insert(tokens[7].lexeme, tokens[9].lexeme),
        spec_parse(tokens, 0, Seq::empty(), Seq::empty()).errors == Seq::<ErrorView>::empty(),
{
    reveal_with_fuel(spec_parse, 3);
    reveal_with_fuel(spec_type_map, 3);
    reveal_with_fuel(spec_block, 3);
    reveal_with_fuel(entries_map, 3);
    let first = (tokens[3].lexeme, tokens[5].lexeme);
    let second = (tokens[7].lexeme, tokens[9].lexeme);
    let entries = seq![first, second];
    assert(Seq::<(Seq<char>, Seq<char>)>::empty().push(first).push(second) =~= entries);
    assert(entries.drop_last() =~= seq![first]);
    assert(seq![first].drop_last() =~= Seq::<(Seq<char>, Seq<char>)>::empty());
    let pm = spec_type_map(tokens, 3, TokenType::RightParen, TokenType::Comma, Seq::empty());
    assert(pm.pos == 11);
    assert(pm.result == Ok::<_, ErrorView>(entries));
    let f = spec_function(tokens, 1);
    assert(f.pos == 16);
    assert(f.result is Ok);
    assert(Seq::<ExprView>::empty().push(f.result->Ok_0) =~= seq![f.result->Ok_0]);
}

/// Whether, from `pos` on, the tokens are entries of a parameter list with
/// commas between them that the end of the input cuts off, before any closing
/// parenthesis and at any place.
pub open spec fn unclosed_list(tokens: Seq<TokenView>, pos: int) -> bool
    decreases tokens.len() - pos,
{
    pos >= 0 && (at_end(tokens, pos) || (tokens[pos].ttype == TokenType::Identifier && (at_end(
        tokens,
        pos + 1,
    ) || (tokens[pos + 1].ttype == TokenType::Colon && (at_end(tokens, pos + 2) || (tokens[pos
        + 2].ttype == TokenType::Identifier && (at_end(tokens, pos + 3) || (tokens[pos + 3].ttype
        == TokenType::Comma && unclosed_list(tokens, pos + 4)))))))))
}

/// A parameter list that the end of the input cuts off fails with the
/// diagnostic for the end of the input, and leaves nothing to read.
pub proof fn lemma_unclosed_list_fails(
    tokens: Seq<TokenView>,
    pos: int,
    acc: Seq<(Seq<char>, Seq<char>)>,
)
    requires
        unclosed_list(tokens, pos),
        pos <= tokens.len(),
    ensures
        ({
            let out = spec_type_map(tokens, pos, TokenType::RightParen, TokenType::Comma, acc);
            &&& out.result is Err
            &&& out.result->Err_0.kind == ErrorKind::EndOfInput
            &&& pos <= out.pos <= tokens.len()
            &&& at_end(tokens, out.pos)
        }),
    decreases tokens.len() - pos,
{
    if !at_end(tokens, pos) && !at_end(tokens, pos + 1) && !at_end(tokens, pos + 2) && !at_end(
        tokens,
        pos + 3,
    ) {
        lemma_unclosed_list_fails(
            tokens,
            pos + 4,
            acc.push((tokens[pos].lexeme, tokens[pos + 2].lexeme)),
        );
    }
}

/// A declaration whose parameter list the end of the input cuts off, before
/// its closing parenthesis, gives no node and exactly one diagnostic, that for
/// the end of the input.
pub proof fn lemma_unclosed_parameters(tokens: Seq<TokenView>)
    requires
        tokens.len() >= 3,
        tokens[0].ttype == TokenType::Fn,
        tokens[1].ttype == TokenType::Identifier,
        tokens[2].ttype == TokenType::LeftParen,
        unclosed_list(tokens, 3),
    ensures
        spec_parse(tokens, 0, Seq::empty(), Seq::empty()).nodes == Seq::<ExprView>::empty(),
        spec_parse(tokens, 0, Seq::empty(), Seq::empty()).errors.len() == 1,
        spec_parse(tokens, 0, Seq::empty(), Seq::empty()).errors[0].kind == ErrorKind::EndOfInput,
{
    reveal_with_fuel(spec_parse, 3);
    lemma_unclosed_list_fails(tokens, 3, Seq::empty());
}

/// The text `fn NAME() { }`, for every name, parses to one function of that
/// name which takes nothing, returns "void" and has an empty body; no
/// diagnostic arises.
pub proof fn lemma_empty_function_text(name: Seq<char>)
    requires
        is_name(name),
    ensures
        spec_parse_source("fn "@ + name + "() { }"@).nodes == seq![
            ExprView::Function {
                name,
                rettype: void_name(),
                params: Seq::empty(),
                body: Box::new(ExprView::Block(Seq::empty())),
            },
        ],
        spec_parse_source("fn "@ + name + "() { }"@).errors == Seq::<ErrorView>::empty(),
{
    reveal_strlit("fn ");
    reveal_strlit("() { }");
    reveal_strlit("fn");
    reveal_strlit("and");
    reveal_strlit("break");
    reveal_strlit("else");
    reveal_strlit("false");
    reveal_strlit("for");
    let src = "fn "@ + name + "() { }"@;
    let n = name.len() as int;
    assert(src.len() == n + 9);
    assert(src[0] == 'f' && src[1] == 'n' && src[2] == ' ');
    assert(src[n + 3] == '(' && src[n + 4] == ')' && src[n + 5] == ' ');
    assert(src[n + 6] == '{' && src[n + 7] == ' ' && src[n + 8] == '}');
    assert forall|k: int| 3 <= k < n + 3 implies is_ident_char(#[trigger] src[k]) by {
        assert(src[k] == name[k - 3]);
    }
    assert(src[3] == name[0]);
    lemma_ident_run(src, 0, 2);
    lemma_ident_run(src, 3, n + 3);
    assert(src.subrange(0, 2) =~= "fn"@);
    assert(src.subrange(3, n + 3) =~= name);
    assert("fn"@.len() == 2);
    assert(spec_keyword("fn"@) == Some(TokenType::Fn));
    let s9 = spec_scan(src, n + 9, 1);
    assert(s9 == seq![eof_token(1)]);
    let s8 = spec_scan(src, n + 8, 1);
    assert(s8 == seq![spec_token_at(src, n + 8, 1).0] + s9);
    let s6 = spec_scan(src, n + 6, 1);
    assert(spec_scan(src, n + 7, 1) == s8);
    assert(s6 == seq![spec_token_at(src, n + 6, 1).0] + s8);
    let s4 = spec_scan(src, n + 4, 1);
    assert(spec_scan(src, n + 5, 1) == s6);
    assert(s4 == seq![spec_token_at(src, n + 4, 1).0] + s6);
    let s3n = spec_scan(src, n + 3, 1);
    assert(s3n == seq![spec_token_at(src, n + 3, 1).0] + s4);
    let s3 = spec_scan(src, 3, 1);
    assert(spec_token_at(src, 3, 1).1 == n + 3);
    assert(s3 == seq![spec_token_at(src, 3, 1).0] + s3n);
    assert(spec_scan(src, 2, 1) == s3);
    assert(spec_token_at(src, 0, 1).1 == 2);
    let tokens = scan(src);
    assert(tokens == seq![spec_token_at(src, 0, 1).0] + s3);
    assert(tokens.len() == 7);
    assert(tokens[0].ttype == TokenType::Fn);
    assert(tokens[1].ttype == TokenType::Identifier);
    assert(tokens[1].lexeme == name);
    assert(tokens[2].ttype == TokenType::LeftParen);
    assert(tokens[3].ttype == TokenType::RightParen);
    assert(tokens[4].ttype == TokenType::LeftBrace);
    assert(tokens[5].ttype == TokenType::RightBrace);
    assert(tokens[6].ttype == TokenType::Eof);
    lemma_empty_function(tokens);
}

/// The text of a declaration with two parameters and a return type.
pub open spec fn two_parameters_text(
    name: Seq<char>,
    a: Seq<char>,
    t1: Seq<char>,
    b: Seq<char>,
    t2: Seq<char>,
    r: Seq<char>,
) -> Seq<char> {
    "fn "@ + name + "("@ + a + ": "@ + t1 + ", "@ + b + ": "@ + t2 + ") -> "@ + r + " { }"@
}

/// Whether `src` holds a name from `from` up to `to`, and something else
/// behind it.
spec fn holds_name(src: Seq<char>, from: int, to: int, name: Seq<char>) -> bool {
    &&& 0 <= from < to < src.len()
    &&& src.subrange(from, to) == name
    &&& is_name(name)
    &&& !is_ident_char(src[to])
    &&& ident_end(src, from) == to
}

/// Where the parts of such a text stand in it.
spec fn laid_out(
    src: Seq<char>,
    name: Seq<char>,
    a: Seq<char>,
    t1: Seq<char>,
    b: Seq<char>,
    t2: Seq<char>,
    r: Seq<char>,
) -> bool {
    let e_name = 3 + name.len() as int;
    let e_a = e_name + 1 + a.len();
    let e_t1 = e_a + 2 + t1.len();
    let e_b = e_t1 + 2 + b.len();
    let e_t2 = e_b + 2 + t2.len();
    let e_r = e_t2 + 5 + r.len();
    &&& src.len() == e_r + 4
    &&& src[0] == 'f' && src[1] == 'n' && src[2] == ' '
    &&& ident_end(src, 0) == 2
    &&& src.subrange(0, 2) == "fn"@
    &&& holds_name(src, 3, e_name, name)
    &&& src[e_name] == '('
    &&& holds_name(src, e_name + 1, e_a, a)
    &&& src[e_a] == ':' && src[e_a + 1] == ' '
    &&& holds_name(src, e_a + 2, e_t1, t1)
    &&& src[e_t1] == ',' && src[e_t1 + 1] == ' '
    &&& holds_name(src, e_t1 + 2, e_b, b)
    &&& src[e_b] == ':' && src[e_b + 1] == ' '
    &&& holds_name(src, e_b + 2, e_t2, t2)
    &&& src[e_t2] == ')' && src[e_t2 + 1] == ' ' && src[e_t2 + 2] == '-' && src[e_t2 + 3] == '>'
        && src[e_t2 + 4] == ' '
    &&& holds_name(src, e_t2 + 5, e_r, r)
    &&& src[e_r] == ' ' && src[e_r + 1] == '{' && src[e_r + 2] == ' ' && src[e_r + 3] == '}'
}

proof fn lemma_holds_name(src: Seq<char>, from: int, to: int, name: Seq<char>)
    requires
        0 <= from,
        to == from + name.len(),
        to < src.len(),
        is_name(name),
        forall|k: int| 0 <= k < name.len() ==> src[from + k] == #[trigger] name[k],
        !is_ident_char(src[to]),
    ensures
        holds_name(src, from, to, name),
{
    assert forall|k: int| from <= k < to implies is_ident_char(#[trigger] src[k]) by {
        assert(src[from + (k - from)] == name[k - from]);
    }
    lemma_ident_run(src, from, to);
    assert(src.subrange(from, to) =~= name);
}

proof fn lemma_laid_out(
    name: Seq<char>,
    a: Seq<char>,
    t1: Seq<char>,
    b: Seq<char>,
    t2: Seq<char>,
    r: Seq<char>,
)
    requires
        is_name(name),
        is_name(a),
        is_name(t1),
        is_name(b),
        is_name(t2),
        is_name(r),
    ensures
        laid_out(two_parameters_text(name, a, t1, b, t2, r), name, a, t1, b, t2, r),
{
    reveal_strlit("fn ");
    reveal_strlit("(");
    reveal_strlit(": ");
    reveal_strlit(", ");
    reveal_strlit(") -> ");
    reveal_strlit(" { }");
    reveal_strlit("fn");
    let src = two_parameters_text(name, a, t1, b, t2, r);
    let e_name = 3 + name.len() as int;
    let e_a = e_name + 1 + a.len();
    let e_t1 = e_a + 2 + t1.len();
    let e_b = e_t1 + 2 + b.len();
    let e_t2 = e_b + 2 + t2.len();
    let e_r = e_t2 + 5 + r.len();
    assert(src.len() == e_r + 4);
    assert(src[0] == 'f' && src[1] == 'n' && src[2] == ' ');
    assert(src[e_name] == '(');
    assert(src[e_a] == ':' && src[e_a + 1] == ' ');
    assert(src[e_t1] == ',' && src[e_t1 + 1] == ' ');
    assert(src[e_b] == ':' && src[e_b + 1] == ' ');
    assert(src[e_t2] == ')' && src[e_t2 + 1] == ' ' && src[e_t2 + 2] == '-' && src[e_t2 + 3] == '>'
        && src[e_t2 + 4] == ' ');
    assert(src[e_r] == ' ' && src[e_r + 1] == '{' && src[e_r + 2] == ' ' && src[e_r + 3] == '}');
    lemma_ident_run(src, 0, 2);
    assert(src.subrange(0, 2) =~= "fn"@);
    lemma_holds_name(src, 3, e_name, name);
    lemma_holds_name(src, e_name + 1, e_a, a);
    lemma_holds_name(src, e_a + 2, e_t1, t1);
    lemma_holds_name(src, e_t1 + 2, e_b, b);
    lemma_holds_name(src, e_b + 2, e_t2, t2);
    lemma_holds_name(src, e_t2 + 5, e_r, r);
}

/// The token that a name in the text gives, and what follows it.
proof fn lemma_scan_name(src: Seq<char>, from: int, to: int, name: Seq<char>)
    requires
        holds_name(src, from, to, name),
    ensures
        spec_scan(src, from, 1) == seq![
            TokenView { ttype: TokenType::Identifier, lexeme: name, line: 1, literal: None },
        ] + spec_scan(src, to, 1),
{
    assert(src[from] == src.subrange(from, to)[0]);
}

/// The token that one character which is a token by itself gives, and what
/// follows it.
proof fn lemma_scan_single(src: Seq<char>, pos: int, kind: TokenType)
    requires
        0 <= pos < src.len(),
        single(src[pos]) == Some(kind),
    ensures
        spec_scan(src, pos, 1).len() == 1 + spec_scan(src, pos + 1, 1).len(),
        spec_scan(src, pos, 1)[0].ttype == kind,
        forall|i: int|
            0 <= i < spec_scan(src, pos + 1, 1).len() ==> spec_scan(src, pos, 1)[i + 1]
                == #[trigger] spec_scan(src, pos + 1, 1)[i],
{
}

proof fn lemma_scan_laid_out(
    src: Seq<char>,
    name: Seq<char>,
    a: Seq<char>,
    t1: Seq<char>,
    b: Seq<char>,
    t2: Seq<char>,
    r: Seq<char>,
)
    requires
        laid_out(src, name, a, t1, b, t2, r),
    ensures
        ({
            let tokens = scan(src);
            &&& tokens.len() == 17
            &&& tokens[0].ttype == TokenType::Fn
            &&& tokens[1].ttype == TokenType::Identifier && tokens[1].lexeme == name
            &&& tokens[2].ttype == TokenType::LeftParen
            &&& tokens[3].ttype == TokenType::Identifier && tokens[3].lexeme == a
            &&& tokens[4].ttype == TokenType::Colon
            &&& tokens[5].ttype == TokenType::Identifier && tokens[5].lexeme == t1
            &&& tokens[6].ttype == TokenType::Comma
            &&& tokens[7].ttype == TokenType::Identifier && tokens[7].lexeme == b
            &&& tokens[8].ttype == TokenType::Colon
            &&& tokens[9].ttype == TokenType::Identifier && tokens[9].lexeme == t2
            &&& tokens[10].ttype == TokenType::RightParen
            &&& tokens[11].ttype == TokenType::Minus
            &&& tokens[12].ttype == TokenType::Greater
            &&& tokens[13].ttype == TokenType::Identifier && tokens[13].lexeme == r
            &&& tokens[14].ttype == TokenType::LeftBrace
            &&& tokens[15].ttype == TokenType::RightBrace
            &&& tokens[16].ttype == TokenType::Eof
        }),
{
    reveal_strlit("fn");
    reveal_strlit("and");
    reveal_strlit("break");
    reveal_strlit("else");
    reveal_strlit("false");
    reveal_strlit("for");
    let e_name = 3 + name.len() as int;
    let e_a = e_name + 1 + a.len();
    let e_t1 = e_a + 2 + t1.len();
    let e_b = e_t1 + 2 + b.len();
    let e_t2 = e_b + 2 + t2.len();
    let e_r = e_t2 + 5 + r.len();
    assert("fn"@.len() == 2 && "and"@.len() == 3 && "break"@.len() == 5);
    assert("else"@.len() == 4 && "false"@.len() == 5 && "for"@.len() == 3);
    assert(spec_keyword("fn"@) == Some(TokenType::Fn));
    let k16 = spec_scan(src, e_r + 4, 1);
    assert(k16 == seq![eof_token(1)]);
    let k15 = spec_scan(src, e_r + 3, 1);
    lemma_scan_single(src, e_r + 3, TokenType::RightBrace);
    assert(spec_scan(src, e_r + 2, 1) == k15);
    let k14 = spec_scan(src, e_r + 1, 1);
    lemma_scan_single(src, e_r + 1, TokenType::LeftBrace);
    assert(spec_scan(src, e_r, 1) == k14);
    let k13 = spec_scan(src, e_t2 + 5, 1);
    lemma_scan_name(src, e_t2 + 5, e_r, r);
    assert(spec_scan(src, e_t2 + 4, 1) == k13);
    let k12 = spec_scan(src, e_t2 + 3, 1);
    assert(k12 == seq![spec_token_at(src, e_t2 + 3, 1).0] + k13);
    let k11 = spec_scan(src, e_t2 + 2, 1);
    lemma_scan_single(src, e_t2 + 2, TokenType::Minus);
    assert(spec_scan(src, e_t2 + 1, 1) == k11);
    let k10 = spec_scan(src, e_t2, 1);
    lemma_scan_single(src, e_t2, TokenType::RightParen);
    let k9 = spec_scan(src, e_b + 2, 1);
    lemma_scan_name(src, e_b + 2, e_t2, t2);
    assert(spec_scan(src, e_b + 1, 1) == k9);
    let k8 = spec_scan(src, e_b, 1);
    lemma_scan_single(src, e_b, TokenType::Colon);
    let k7 = spec_scan(src, e_t1 + 2, 1);
    lemma_scan_name(src, e_t1 + 2, e_b, b);
    assert(spec_scan(src, e_t1 + 1, 1) == k7);
    let k6 = spec_scan(src, e_t1, 1);
    lemma_scan_single(src, e_t1, TokenType::Comma);
    let k5 = spec_scan(src, e_a + 2, 1);
    lemma_scan_name(src, e_a + 2, e_t1, t1);
    assert(spec_scan(src, e_a + 1, 1) == k5);
    let k4 = spec_scan(src, e_a, 1);
    lemma_scan_single(src, e_a, TokenType::Colon);
    let k3 = spec_scan(src, e_name + 1, 1);
    lemma_scan_name(src, e_name + 1, e_a, a);
    let k2 = spec_scan(src, e_name, 1);
    lemma_scan_single(src, e_name, TokenType::LeftParen);
    let k1 = spec_scan(src, 3, 1);
    lemma_scan_name(src, 3, e_name, name);
    assert(spec_scan(src, 2, 1) == k1);
    assert(spec_token_at(src, 0, 1).1 == 2);
    let tokens = scan(src);
    assert(tokens == seq![spec_token_at(src, 0, 1).0] + k1);
    assert(k15.len() == 2 && k14.len() == 3 && k13.len() == 4 && k12.len() == 5);
    assert(k11.len() == 6 && k10.len() == 7 && k9.len() == 8 && k8.len() == 9);
    assert(k7.len() == 10 && k6.len() == 11 && k5.len() == 12 && k4.len() == 13);
    assert(k3.len() == 14 && k2.len() == 15 && k1.len() == 16);
    assert(k15[1] == k16[0]);
    assert(k14[2] == k15[1] && k14[1] == k15[0]);
    assert(k13[3] == k14[2] && k13[2] == k14[1] && k13[1] == k14[0]);
    assert(k12[4] == k13[3] && k12[3] == k13[2] && k12[2] == k13[1] && k12[1] == k13[0]);
    assert(k11[5] == k12[4] && k11[4] == k12[3] && k11[3] == k12[2] && k11[2] == k12[1] && k11[1]
        == k12[0]);
    assert forall|i: int| 0 <= i < 6 implies k9[i + 2] == #[trigger] k11[i] by {
        assert(k10[i + 1] == k11[i]);
        assert(k9[i + 2] == k10[i + 1]);
    }
    assert forall|i: int| 0 <= i < 8 implies k7[i + 2] == #[trigger] k9[i] by {
        assert(k8[i + 1] == k9[i]);
        assert(k7[i + 2] == k8[i + 1]);
    }
    assert forall|i: int| 0 <= i < 10 implies k5[i + 2] == #[trigger] k7[i] by {
        assert(k6[i + 1] == k7[i]);
        assert(k5[i + 2] == k6[i + 1]);
    }
    assert forall|i: int| 0 <= i < 12 implies k3[i + 2] == #[trigger] k5[i] by {
        assert(k4[i + 1] == k5[i]);
        assert(k3[i + 2] == k4[i + 1]);
    }
    assert forall|i: int| 0 <= i < 14 implies tokens[i + 3] == #[trigger] k3[i] by {
        assert(k2[i + 1] == k3[i]);
        assert(k1[i + 2] == k2[i + 1]);
        assert(tokens[i + 3] == k1[i + 2]);
    }
    assert(tokens[1] == k1[0]);
    assert(tokens[2] == k1[1] && k1[1] == k2[0]);
    assert(tokens[3] == k3[0]);
    assert(tokens[4] == k3[1] && k3[1] == k4[0]);
    assert(tokens[5] == k3[2] && k3[2] == k5[0]);
    assert(tokens[6] == k3[3] && k3[3] == k5[1] && k5[1] == k6[0]);
    assert(tokens[7] == k3[4] && k3[4] == k5[2] && k5[2] == k7[0]);
    assert(tokens[8] == k3[5] && k3[5] == k5[3] && k5[3] == k7[1] && k7[1] == k8[0]);
    assert(tokens[9] == k3[6] && k3[6] == k5[4] && k5[4] == k7[2] && k7[2] == k9[0]);
    assert(tokens[10] == k3[7] && k3[7] == k5[5] && k5[5] == k7[3] && k7[3] == k9[1] && k9[1]
        == k10[0]);
    assert(tokens[11] == k3[8] && k3[8] == k5[6] && k5[6] == k7[4] && k7[4] == k9[2] && k9[2]
        == k11[0]);
    assert(tokens[12] == k3[9] && k3[9] == k5[7] && k5[7] == k7[5] && k7[5] == k9[3] && k9[3]
        == k11[1]);
    assert(tokens[13] == k3[10] && k3[10] == k5[8] && k5[8] == k7[6] && k7[6] == k9[4] && k9[4]
        == k11[2]);
    assert(tokens[14] == k3[11] && k3[11] == k5[9] && k5[9] == k7[7] && k7[7] == k9[5] && k9[5]
        == k11[3]);
    assert(tokens[15] == k3[12] && k3[12] == k5[10] && k5[10] == k7[8] && k7[8] == k9[6] && k9[6]
        == k11[4]);
    assert(tokens[16] == k3[13] && k3[13] == k5[11] && k5[11] == k7[9] && k7[9] == k9[7] && k9[7]
        == k11[5]);
}

/// The text `fn NAME(A: T1, B: T2) -> R { }`, for all six names, parses to
/// one function of that name whose parameters are A of T1 and B of T2 and
/// whose return type is R; no diagnostic arises.
pub proof fn lemma_two_parameters_text(
    name: Seq<char>,
    a: Seq<char>,
    t1: Seq<char>,
    b: Seq<char>,
    t2: Seq<char>,
    r: Seq<char>,
)
    requires
        is_name(name),
        is_name(a),
        is_name(t1),
        is_name(b),
        is_name(t2),
        is_name(r),
    ensures
        spec_parse_source(two_parameters_text(name, a, t1, b, t2, r)).nodes == seq![
            ExprView::Function {
                name,
                rettype: r,
                params: seq![(a, t1), (b, t2)],
                body: Box::new(ExprView::Block(Seq::empty())),
            },
        ],
        spec_parse_source(two_parameters_text(name, a, t1, b, t2, r)).errors == Seq::<
            ErrorView,
        >::empty(),
{
    let src = two_parameters_text(name, a, t1, b, t2, r);
    lemma_laid_out(name, a, t1, b, t2, r);
    lemma_scan_laid_out(src, name, a, t1, b, t2, r);
    lemma_two_parameters(scan(src));
}

/// The text `fn NAME(`, which ends where the parameters would stand, gives
/// no node and exactly one diagnostic, that for the end of the input.
pub proof fn lemma_unclosed_parameters_text(name: Seq<char>)
    requires
        is_name(name),
    ensures
        spec_parse_source("fn "@ + name + "("@).nodes == Seq::<ExprView>::empty(),
        spec_parse_source("fn "@ + name + "("@).errors.len() == 1,
        spec_parse_source("fn "@ + name + "("@).errors[0].kind == ErrorKind::EndOfInput,
{
    reveal_strlit("fn ");
    reveal_strlit("(");
    reveal_strlit("fn");
    reveal_strlit("and");
    reveal_strlit("break");
    reveal_strlit("else");
    reveal_strlit("false");
    reveal_strlit("for");
    let src = "fn "@ + name + "("@;
    let n = name.len() as int;
    assert(src.len() == n + 4);
    assert(src[0] == 'f' && src[1] == 'n' && src[2] == ' ' && src[n + 3] == '(');
    lemma_ident_run(src, 0, 2);
    assert(src.subrange(0, 2) =~= "fn"@);
    assert("fn"@.len() == 2);
    assert(spec_keyword("fn"@) == Some(TokenType::Fn));
    lemma_holds_name(src, 3, n + 3, name);
    lemma_scan_name(src, 3, n + 3, name);
    lemma_scan_single(src, n + 3, TokenType::LeftParen);
    let last = spec_scan(src, n + 4, 1);
    assert(last == seq![eof_token(1)]);
    let paren = spec_scan(src, n + 3, 1);
    assert(paren[1] == last[0]);
    let named = spec_scan(src, 3, 1);
    assert(spec_scan(src, 2, 1) == named);
    assert(spec_token_at(src, 0, 1).1 == 2);
    let tokens = scan(src);
    assert(tokens == seq![spec_token_at(src, 0, 1).0] + named);
    assert(tokens.len() == 4);
    assert(tokens[1] == named[0]);
    assert(tokens[2] == named[1] && named[1] == paren[0]);
    assert(tokens[3] == named[2] && named[2] == paren[1]);
    lemma_unclosed_parameters(tokens);
}

} // verus!
