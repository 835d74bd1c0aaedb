//! The lexer: source text to tokens. It never fails: text that is no token
//! becomes a token of kind `Error` that carries the reason.

use vstd::prelude::*;
use crate::token::{keyword, spec_keyword, tokens_view, Token, TokenType, TokenView};

verus! {

pub open spec fn is_digit(c: char) -> bool {
    '0' <= c && c <= '9'
}

pub open spec fn is_ident_start(c: char) -> bool {
    ('a' <= c && c <= 'z') || ('A' <= c && c <= 'Z') || c == '_'
}

pub open spec fn is_ident_char(c: char) -> bool {
    is_ident_start(c) || is_digit(c)
}

/// Space, tab and carriage return stand between tokens and are skipped.
pub open spec fn is_blank(c: char) -> bool {
    c == ' ' || c == '\t' || c == '\r'
}

/// The kind of a character that is a token by itself wherever it stands.
pub open spec fn single(c: char) -> Option<TokenType> {
    if c == '(' {
        Some(TokenType::LeftParen)
    } else if c == ')' {
        Some(TokenType::RightParen)
    } else if c == '{' {
        Some(TokenType::LeftBrace)
    } else if c == '}' {
        Some(TokenType::RightBrace)
    } else if c == ',' {
        Some(TokenType::Comma)
    } else if c == ':' {
        Some(TokenType::Colon)
    } else if c == '.' {
        Some(TokenType::Dot)
    } else if c == '-' {
        Some(TokenType::Minus)
    } else if c == '+' {
        Some(TokenType::Plus)
    } else if c == '?' {
        Some(TokenType::QuestionMark)
    } else if c == ';' {
        Some(TokenType::Semicolon)
    } else if c == '/' {
        Some(TokenType::Slash)
    } else if c == '*' {
        Some(TokenType::Star)
    } else {
        None
    }
}

/// For a character that forms one token alone and another with `=` behind
/// it: the two kinds, in that order.
pub open spec fn paired(c: char) -> Option<(TokenType, TokenType)> {
    if c == '!' {
        Some((TokenType::Bang, TokenType::BangEqual))
    } else if c == '=' {
        Some((TokenType::Equal, TokenType::EqualEqual))
    } else if c == '<' {
        Some((TokenType::Less, TokenType::LessEqual))
    } else if c == '>' {
        Some((TokenType::Greater, TokenType::GreaterEqual))
    } else {
        None
    }
}

/// The kind of the character alone.
pub open spec fn first_of(kinds: Option<(TokenType, TokenType)>) -> TokenType {
    match kinds {
        Some((alone, _)) => alone,
        None => TokenType::Error,
    }
}

/// The kind of the character with `=` behind it.
pub open spec fn second_of(kinds: Option<(TokenType, TokenType)>) -> TokenType {
    match kinds {
        Some((_, with_equal)) => with_equal,
        None => TokenType::Error,
    }
}

/// The first position from `pos` on that holds no digit.
pub open spec fn digits_end(src: Seq<char>, pos: int) -> int
    decreases src.len() - pos,
{
    if 0 <= pos < src.len() && is_digit(src[pos]) {
        digits_end(src, pos + 1)
    } else {
        pos
    }
}

/// The first position from `pos` on that holds no character of an identifier.
pub open spec fn ident_end(src: Seq<char>, pos: int) -> int
    decreases src.len() - pos,
{
    if 0 <= pos < src.len() && is_ident_char(src[pos]) {
        ident_end(src, pos + 1)
    } else {
        pos
    }
}

/// The first position from `pos` on that holds a double quote or a line
/// break, or the end of the text.
pub open spec fn string_end(src: Seq<char>, pos: int) -> int
    decreases src.len() - pos,
{
    if 0 <= pos < src.len() && src[pos] != '"' && src[pos] != '\n' {
        string_end(src, pos + 1)
    } else {
        pos
    }
}

/// The end of the number that starts at `pos`: digits, and a fraction where a
/// dot with a digit behind it follows them.
pub open spec fn number_end(src: Seq<char>, pos: int) -> int {
    let e = digits_end(src, pos);
    if 0 <= e && e + 1 < src.len() && src[e] == '.' && is_digit(src[e + 1]) {
        digits_end(src, e + 1)
    } else {
        e
    }
}

/// Whether `text` is one digit or more and nothing else.
pub open spec fn all_digits(text: Seq<char>) -> bool {
    text.len() > 0 && forall|i: int| 0 <= i < text.len() ==> is_digit(#[trigger] text[i])
}

/// Whether `text` writes a number: digits, and at most one dot, which has
/// digits on both sides.
pub open spec fn is_number_text(text: Seq<char>) -> bool {
    all_digits(text) || exists|dot: int|
        0 < dot < text.len() - 1 && #[trigger] text[dot] == '.' && all_digits(
            text.subrange(0, dot),
        ) && all_digits(text.subrange(dot + 1, text.len() as int))
}

/// What holds of every token sequence that the lexer gives: the end marker
/// stands last and nowhere else, and each number token carries, as lexeme and
/// as literal, text that writes a number.
pub open spec fn well_formed(tokens: Seq<TokenView>) -> bool {
    &&& tokens.len() > 0
    &&& tokens[tokens.len() - 1].ttype == TokenType::Eof
    &&& forall|i: int|
        0 <= i < tokens.len() - 1 ==> (#[trigger] tokens[i]).ttype != TokenType::Eof
    &&& forall|i: int|
        0 <= i < tokens.len() && (#[trigger] tokens[i]).ttype == TokenType::Number ==> tokens[i].literal
            == Some(tokens[i].lexeme) && is_number_text(tokens[i].lexeme)
}

/// The line after `line`; the count stops at the largest number.
pub open spec fn next_line(line: usize) -> usize {
    if line < usize::MAX {
        (line + 1) as usize
    } else {
        line
    }
}

pub open spec fn unterminated_string() -> Seq<char> {
    "unterminated string"@
}

pub open spec fn unexpected_character() -> Seq<char> {
    "unexpected character"@
}

/// The token that starts at `pos`, where no blank or line break stands, and
/// the position behind it.
pub open spec fn spec_token_at(src: Seq<char>, pos: int, line: usize) -> (TokenView, int) {
    let c = src[pos];
    if single(c) is Some {
        (
            TokenView {
                ttype: single(c)->0,
                lexeme: src.subrange(pos, pos + 1),
                line,
                literal: None,
            },
            pos + 1,
        )
    } else if paired(c) is Some {
        if pos + 1 < src.len() && src[pos + 1] == '=' {
            (
                TokenView {
                    ttype: second_of(paired(c)),
                    lexeme: src.subrange(pos, pos + 2),
                    line,
                    literal: None,
                },
                pos + 2,
            )
        } else {
            (
                TokenView {
                    ttype: first_of(paired(c)),
                    lexeme: src.subrange(pos, pos + 1),
                    line,
                    literal: None,
                },
                pos + 1,
            )
        }
    } else if c == '"' {
        let e = string_end(src, pos + 1);
        if e < src.len() && src[e] == '"' {
            (
                TokenView {
                    ttype: TokenType::String,
                    lexeme: src.subrange(pos, e + 1),
                    line,
                    literal: Some(src.subrange(pos + 1, e)),
                },
                e + 1,
            )
        } else {
            (
                TokenView {
                    ttype: TokenType::Error,
                    lexeme: src.subrange(pos, e),
                    line,
                    literal: Some(unterminated_string()),
                },
                e,
            )
        }
    } else if is_digit(c) {
        let e = number_end(src, pos);
        (
            TokenView {
                ttype: TokenType::Number,
                lexeme: src.subrange(pos, e),
                line,
                literal: Some(src.subrange(pos, e)),
            },
            e,
        )
    } else if is_ident_start(c) {
        let e = ident_end(src, pos);
        (
            TokenView {
                ttype: match spec_keyword(src.subrange(pos, e)) {
                    Some(k) => k,
                    None => TokenType::Identifier,
                },
                lexeme: src.subrange(pos, e),
                line,
                literal: None,
            },
            e,
        )
    } else {
        (
            TokenView {
                ttype: TokenType::Error,
                lexeme: src.subrange(pos, pos + 1),
                line,
                literal: Some(unexpected_character()),
            },
            pos + 1,
        )
    }
}

/// The marker that ends every token sequence.
pub open spec fn eof_token(line: usize) -> TokenView {
    TokenView { ttype: TokenType::Eof, lexeme: Seq::empty(), line, literal: None }
}

/// The tokens of `src` from `pos` on, where `line` is the line of `pos`:
/// blanks are skipped, a line break starts the next line, and the end marker
/// comes last.
pub open spec fn spec_scan(src: Seq<char>, pos: int, line: usize) -> Seq<TokenView>
    decreases src.len() - pos,
{
    if pos >= src.len() || pos < 0 {
        seq![eof_token(line)]
    } else if is_blank(src[pos]) {
        spec_scan(src, pos + 1, line)
    } else if src[pos] == '\n' {
        spec_scan(src, pos + 1, next_line(line))
    } else {
        let found = spec_token_at(src, pos, line);
        if pos < found.1 <= src.len() {
            seq![found.0] + spec_scan(src, found.1, line)
        } else {
            seq![found.0, eof_token(line)]
        }
    }
}

/// The tokens of a source text, from its first character on line 1.
pub open spec fn scan(src: Seq<char>) -> Seq<TokenView> {
    spec_scan(src, 0, 1)
}

/// A run of digits ends no earlier than it starts and no later than the text,
/// and holds digits alone.
pub proof fn lemma_digits_end_from(src: Seq<char>, pos: int)
    ensures
        pos <= digits_end(src, pos),
        digits_end(src, pos) <= src.len() || digits_end(src, pos) == pos,
        forall|k: int| pos <= k < digits_end(src, pos) ==> is_digit(#[trigger] src[k]),
    decreases src.len() - pos,
{
    if 0 <= pos < src.len() && is_digit(src[pos]) {
        lemma_digits_end_from(src, pos + 1);
    }
}

/// A run of identifier characters ends no earlier than it starts.
pub proof fn lemma_ident_end_from(src: Seq<char>, pos: int)
    ensures
        pos <= ident_end(src, pos),
    decreases src.len() - pos,
{
    if 0 <= pos < src.len() && is_ident_char(src[pos]) {
        lemma_ident_end_from(src, pos + 1);
    }
}

/// A run of identifier characters that something else follows, or the end of
/// the text, ends there.
pub proof fn lemma_ident_run(src: Seq<char>, pos: int, end: int)
    requires
        0 <= pos <= end <= src.len(),
        forall|k: int| pos <= k < end ==> is_ident_char(#[trigger] src[k]),
        end == src.len() || !is_ident_char(src[end]),
    ensures
        ident_end(src, pos) == end,
    decreases end - pos,
{
    if pos < end {
        lemma_ident_run(src, pos + 1, end);
    }
}

/// A run of digits that something else follows, or the end of the text, ends
/// there.
pub proof fn lemma_digits_run(src: Seq<char>, pos: int, end: int)
    requires
        0 <= pos <= end <= src.len(),
        forall|k: int| pos <= k < end ==> is_digit(#[trigger] src[k]),
        end == src.len() || !is_digit(src[end]),
    ensures
        digits_end(src, pos) == end,
    decreases end - pos,
{
    if pos < end {
        lemma_digits_run(src, pos + 1, end);
    }
}

/// Whether `name` can be the name of something: a letter or an underscore,
/// then letters, digits and underscores, and no reserved word.
pub open spec fn is_name(name: Seq<char>) -> bool {
    &&& name.len() > 0
    &&& is_ident_start(name[0])
    &&& forall|i: int| 0 <= i < name.len() ==> is_ident_char(#[trigger] name[i])
    &&& spec_keyword(name) is None
}

/// The text of a number that starts with a digit writes a number.
pub proof fn lemma_number_text(src: Seq<char>, pos: int)
    requires
        0 <= pos < src.len(),
        is_digit(src[pos]),
    ensures
        pos < number_end(src, pos) <= src.len(),
        is_number_text(src.subrange(pos, number_end(src, pos))),
{
    let e = digits_end(src, pos);
    lemma_digits_end_from(src, pos);
    lemma_digits_end_from(src, pos + 1);
    assert(e == digits_end(src, pos + 1));
    if e + 1 < src.len() && src[e] == '.' && is_digit(src[e + 1]) {
        let end = digits_end(src, e + 1);
        lemma_digits_end_from(src, e + 1);
        lemma_digits_end_from(src, e + 2);
        assert(end == digits_end(src, e + 2));
        let text = src.subrange(pos, end);
        let dot = e - pos;
        assert(text[dot] == '.');
        assert(all_digits(text.subrange(0, dot))) by {
            assert forall|i: int| 0 <= i < dot implies is_digit(
                #[trigger] text.subrange(0, dot)[i],
            ) by {
                assert(text.subrange(0, dot)[i] == src[pos + i]);
            }
        }
        assert(all_digits(text.subrange(dot + 1, text.len() as int))) by {
            assert forall|i: int| 0 <= i < text.len() - dot - 1 implies is_digit(
                #[trigger] text.subrange(dot + 1, text.len() as int)[i],
            ) by {
                assert(text.subrange(dot + 1, text.len() as int)[i] == src[e + 1 + i]);
            }
        }
    } else {
        let text = src.subrange(pos, e);
        assert forall|i: int| 0 <= i < text.len() implies is_digit(#[trigger] text[i]) by {
            assert(text[i] == src[pos + i]);
        }
        assert(all_digits(text));
    }
}

/// The tokens of a text are well formed, from whatever place they are read.
pub proof fn lemma_scan_well_formed(src: Seq<char>, pos: int, line: usize)
    ensures
        well_formed(spec_scan(src, pos, line)),
    decreases src.len() - pos,
{
    if pos >= src.len() || pos < 0 {
    } else if is_blank(src[pos]) {
        lemma_scan_well_formed(src, pos + 1, line);
    } else if src[pos] == '\n' {
        lemma_scan_well_formed(src, pos + 1, next_line(line));
    } else {
        let found = spec_token_at(src, pos, line);
        assert(found.0.ttype != TokenType::Eof);
        if is_digit(src[pos]) {
            lemma_number_text(src, pos);
        }
        assert(found.0.ttype == TokenType::Number ==> found.0.literal == Some(found.0.lexeme)
            && is_number_text(found.0.lexeme));
        if pos < found.1 <= src.len() {
            lemma_scan_well_formed(src, found.1, line);
            let rest = spec_scan(src, found.1, line);
            let all = seq![found.0] + rest;
            assert forall|i: int| 0 <= i < all.len() - 1 implies (#[trigger] all[i]).ttype
                != TokenType::Eof by {
                if i > 0 {
                    assert(all[i] == rest[i - 1]);
                }
            }
            assert forall|i: int|
                0 <= i < all.len() && (#[trigger] all[i]).ttype
                    == TokenType::Number implies all[i].literal == Some(all[i].lexeme)
                && is_number_text(all[i].lexeme) by {
                if i > 0 {
                    assert(all[i] == rest[i - 1]);
                }
            }
            assert(all[all.len() - 1] == rest[rest.len() - 1]);
        }
    }
}

fn single_kind(c: char) -> (r: Option<TokenType>)
    ensures
        r == single(c),
{
    if c == '(' {
        Some(TokenType::LeftParen)
    } else if c == ')' {
        Some(TokenType::RightParen)
    } else if c == '{' {
        Some(TokenType::LeftBrace)
    } else if c == '}' {
        Some(TokenType::RightBrace)
    } else if c == ',' {
        Some(TokenType::Comma)
    } else if c == ':' {
        Some(TokenType::Colon)
    } else if c == '.' {
        Some(TokenType::Dot)
    } else if c == '-' {
        Some(TokenType::Minus)
    } else if c == '+' {
        Some(TokenType::Plus)
    } else if c == '?' {
        Some(TokenType::QuestionMark)
    } else if c == ';' {
        Some(TokenType::Semicolon)
    } else if c == '/' {
        Some(TokenType::Slash)
    } else if c == '*' {
        Some(TokenType::Star)
    } else {
        None
    }
}

fn paired_kinds(c: char) -> (r: Option<(TokenType, TokenType)>)
    ensures
        r == paired(c),
{
    if c == '!' {
        Some((TokenType::Bang, TokenType::BangEqual))
    } else if c == '=' {
        Some((TokenType::Equal, TokenType::EqualEqual))
    } else if c == '<' {
        Some((TokenType::Less, TokenType::LessEqual))
    } else if c == '>' {
        Some((TokenType::Greater, TokenType::GreaterEqual))
    } else {
        None
    }
}

fn digit(c: char) -> (r: bool)
    ensures
        r == is_digit(c),
{
    '0' <= c && c <= '9'
}

fn ident_start(c: char) -> (r: bool)
    ensures
        r == is_ident_start(c),
{
    ('a' <= c && c <= 'z') || ('A' <= c && c <= 'Z') || c == '_'
}

fn skip_digits(src: &str, n: usize, pos: usize) -> (r: usize)
    requires
        n == src@.len(),
        pos <= n,
    ensures
        r == digits_end(src@, pos as int),
        pos <= r <= n,
{
    let mut i: usize = pos;
    while i < n && digit(src.get_char(i))
        invariant
            n == src@.len(),
            pos <= i <= n,
            digits_end(src@, i as int) == digits_end(src@, pos as int),
        decreases n - i,
    {
        i = i + 1;
    }
    i
}

fn skip_ident(src: &str, n: usize, pos: usize) -> (r: usize)
    requires
        n == src@.len(),
        pos <= n,
    ensures
        r == ident_end(src@, pos as int),
        pos <= r <= n,
{
    let mut i: usize = pos;
    while i < n && (ident_start(src.get_char(i)) || digit(src.get_char(i)))
        invariant
            n == src@.len(),
            pos <= i <= n,
            ident_end(src@, i as int) == ident_end(src@, pos as int),
        decreases n - i,
    {
        i = i + 1;
    }
    i
}

fn skip_string(src: &str, n: usize, pos: usize) -> (r: usize)
    requires
        n == src@.len(),
        pos <= n,
    ensures
        r == string_end(src@, pos as int),
        pos <= r <= n,
{
    let mut i: usize = pos;
    while i < n && src.get_char(i) != '"' && src.get_char(i) != '\n'
        invariant
            n == src@.len(),
            pos <= i <= n,
            string_end(src@, i as int) == string_end(src@, pos as int),
        decreases n - i,
    {
        i = i + 1;
    }
    i
}

fn skip_number(src: &str, n: usize, pos: usize) -> (r: usize)
    requires
        n == src@.len(),
        pos <= n,
    ensures
        r == number_end(src@, pos as int),
        pos <= r <= n,
{
    let e = skip_digits(src, n, pos);
    if e < n && n - e > 1 && src.get_char(e) == '.' && digit(src.get_char(e + 1)) {
        skip_digits(src, n, e + 1)
    } else {
        e
    }
}

/// A token whose lexeme is the text from `from` to `to`.
fn cut(src: &str, kind: TokenType, from: usize, to: usize, line: usize, literal: Option<String>) -> (t:
    Token)
    requires
        from <= to <= src@.len(),
    ensures
        t@ == (TokenView {
            ttype: kind,
            lexeme: src@.subrange(from as int, to as int),
            line,
            literal: match literal {
                Some(s) => Some(s@),
                None => None,
            },
        }),
{
    Token::new(kind, src.substring_char(from, to).to_owned(), line, literal)
}

/// Reads the token that starts at `pos`, and says where it ends.
fn scan_token(src: &str, n: usize, pos: usize, line: usize) -> (r: (Token, usize))
    requires
        n == src@.len(),
        pos < n,
    ensures
        r.0@ == spec_token_at(src@, pos as int, line).0,
        r.1 == spec_token_at(src@, pos as int, line).1,
        pos < r.1 <= n,
{
    let c = src.get_char(pos);
    if let Some(kind) = single_kind(c) {
        return (cut(src, kind, pos, pos + 1, line, None), pos + 1);
    }
    if let Some(kinds) = paired_kinds(c) {
        if n - pos > 1 && src.get_char(pos + 1) == '=' {
            return (cut(src, kinds.1, pos, pos + 2, line, None), pos + 2);
        }
        return (cut(src, kinds.0, pos, pos + 1, line, None), pos + 1);
    }
    if c == '"' {
        let e = skip_string(src, n, pos + 1);
        if e < n && src.get_char(e) == '"' {
            let inner = src.substring_char(pos + 1, e).to_owned();
            return (cut(src, TokenType::String, pos, e + 1, line, Some(inner)), e + 1);
        }
        let reason = "unterminated string".to_owned();
        return (cut(src, TokenType::Error, pos, e, line, Some(reason)), e);
    }
    if digit(c) {
        let e = skip_number(src, n, pos);
        proof {
            lemma_number_text(src@, pos as int);
        }
        let text = src.substring_char(pos, e).to_owned();
        return (cut(src, TokenType::Number, pos, e, line, Some(text)), e);
    }
    if ident_start(c) {
        let e = skip_ident(src, n, pos);
        proof {
            lemma_ident_end_from(src@, pos + 1);
        }
        let kind = match keyword(src.substring_char(pos, e)) {
            Some(k) => k,
            None => TokenType::Identifier,
        };
        return (cut(src, kind, pos, e, line, None), e);
    }
    let reason = "unexpected character".to_owned();
    (cut(src, TokenType::Error, pos, pos + 1, line, Some(reason)), pos + 1)
}

/// A source text that waits to be read.
pub struct Lexer {
    source: String,
}

impl Lexer {
    /// The text that this lexer reads.
    pub closed spec fn source(self) -> Seq<char> {
        self.source@
    }

    pub fn new(source: &str) -> (r: Self)
        ensures
            r.source() == source@,
    {
        Lexer { source: source.to_owned() }
    }

    /// Reads the whole text. The answer depends on the text alone.
    pub fn lex(self) -> (tokens: Vec<Token>)
        ensures
            tokens_view(tokens@) == scan(self.source()),
            well_formed(tokens_view(tokens@)),
    {
        let src = self.source.as_str();
        let n = src.unicode_len();
        let mut tokens: Vec<Token> = Vec::new();
        let mut pos: usize = 0;
        let mut line: usize = 1;
        assert(tokens_view(tokens@) + spec_scan(src@, 0, 1) =~= spec_scan(src@, 0, 1));
        while pos < n
            invariant
                n == src@.len(),
                pos <= n,
                tokens_view(tokens@) + spec_scan(src@, pos as int, line) == spec_scan(src@, 0, 1),
            decreases n - pos,
        {
            let c = src.get_char(pos);
            if c == ' ' || c == '\t' || c == '\r' {
                pos = pos + 1;
            } else if c == '\n' {
                if line < usize::MAX {
                    line = line + 1;
                }
                pos = pos + 1;
            } else {
                let ghost before = tokens_view(tokens@);
                let ghost rest = spec_scan(src@, pos as int, line);
                let (token, end) = scan_token(src, n, pos, line);
                tokens.push(token);
                pos = end;
                assert(tokens_view(tokens@) =~= before.push(token@));
                assert(rest == seq![token@] + spec_scan(src@, end as int, line));
                assert(before.push(token@) + spec_scan(src@, end as int, line) =~= before + rest);
            }
        }
        let ghost before = tokens_view(tokens@);
        tokens.push(Token::new(TokenType::Eof, String::new(), line, None));
        assert(tokens_view(tokens@) =~= before + seq![eof_token(line)]);
        proof {
            lemma_scan_well_formed(src@, 0, 1);
        }
        tokens
    }
}

/// The kinds of a token sequence, in order.
pub open spec fn kinds(tokens: Seq<TokenView>) -> Seq<TokenType> {
    Seq::new(tokens.len(), |i: int| tokens[i].ttype)
}

/// Reading one text twice gives the same tokens, and so the same kinds in the
/// same order: what the lexer gives depends on the text alone.
pub proof fn lemma_lex_is_deterministic(
    first_text: Seq<char>,
    second_text: Seq<char>,
    first: Seq<Token>,
    second: Seq<Token>,
)
    requires
        first_text == second_text,
        tokens_view(first) == scan(first_text),
        tokens_view(second) == scan(second_text),
    ensures
        tokens_view(first) == tokens_view(second),
        kinds(tokens_view(first)) == kinds(tokens_view(second)),
        first.len() == second.len(),
        forall|i: int| 0 <= i < first.len() ==> first[i]@ == second[i]@,
{
    assert(tokens_view(first).len() == first.len());
    assert(tokens_view(second).len() == second.len());
    assert forall|i: int| 0 <= i < first.len() implies first[i]@ == second[i]@ by {
        assert(tokens_view(first)[i] == first[i]@);
        assert(tokens_view(second)[i] == second[i]@);
    }
}

} // verus!
