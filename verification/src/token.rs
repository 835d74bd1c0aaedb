//! Tokens: the smallest classified units of source text.

use vstd::prelude::*;

verus! {

/// The closed set of token kinds.
#[derive(Debug, Clone, Copy, PartialEq, Eq, Structural)]
pub enum TokenType {
    LeftParen,
    RightParen,
    LeftBrace,
    RightBrace,
    Comma,
    Colon,
    Dot,
    Minus,
    Plus,
    QuestionMark,
    Semicolon,
    Slash,
    Star,
    Bang,
    BangEqual,
    Equal,
    EqualEqual,
    Greater,
    GreaterEqual,
    Less,
    LessEqual,
    // Literals.
    Identifier,
    String,
    Number,
    // Keywords.
    And,
    Break,
    Else,
    False,
    For,
    Fn,
    If,
    Or,
    Return,
    True,
    Let,
    While,
    /// Marks the end of the source text.
    Eof,
    /// Text that is no token; the token's literal holds the reason.
    Error,
}

impl TokenType {
    /// Whether this kind is one of the twelve reserved words.
    pub open spec fn spec_is_keyword(self) -> bool {
        matches!(
            self,
            TokenType::And | TokenType::Break | TokenType::Else | TokenType::False
                | TokenType::For | TokenType::Fn | TokenType::If | TokenType::Or
                | TokenType::Return | TokenType::True | TokenType::Let | TokenType::While
        )
    }

    #[verifier::when_used_as_spec(spec_is_keyword)]
    pub fn is_keyword(self) -> (r: bool)
        ensures
            r == self.spec_is_keyword(),
    {
        matches!(
            self,
            TokenType::And | TokenType::Break | TokenType::Else | TokenType::False
                | TokenType::For | TokenType::Fn | TokenType::If | TokenType::Or
                | TokenType::Return | TokenType::True | TokenType::Let | TokenType::While
        )
    }
}

/// The reserved word that `text` spells, if it spells one. The match is exact:
/// no prefix, no other case.
pub open spec fn spec_keyword(text: Seq<char>) -> Option<TokenType> {
    if text == "and"@ {
        Some(TokenType::And)
    } else if text == "break"@ {
        Some(TokenType::Break)
    } else if text == "else"@ {
        Some(TokenType::Else)
    } else if text == "false"@ {
        Some(TokenType::False)
    } else if text == "for"@ {
        Some(TokenType::For)
    } else if text == "fn"@ {
        Some(TokenType::Fn)
    } else if text == "if"@ {
        Some(TokenType::If)
    } else if text == "or"@ {
        Some(TokenType::Or)
    } else if text == "return"@ {
        Some(TokenType::Return)
    } else if text == "true"@ {
        Some(TokenType::True)
    } else if text == "let"@ {
        Some(TokenType::Let)
    } else if text == "while"@ {
        Some(TokenType::While)
    } else {
        None
    }
}

/// Whether two pieces of text hold the same characters.
pub fn same_text(a: &str, b: &str) -> (r: bool)
    ensures
        r == (a@ == b@),
{
    let n = a.unicode_len();
    if n != b.unicode_len() {
        return false;
    }
    let mut i: usize = 0;
    while i < n
        invariant
            n == a@.len(),
            n == b@.len(),
            i <= n,
            forall|k: int| 0 <= k < i ==> a@[k] == b@[k],
        decreases n - i,
    {
        if a.get_char(i) != b.get_char(i) {
            return false;
        }
        i = i + 1;
    }
    assert(a@ =~= b@);
    true
}

/// Looks `text` up in the table of reserved words.
pub fn keyword(text: &str) -> (r: Option<TokenType>)
    ensures
        r == spec_keyword(text@),
{
    if same_text(text, "and") {
        Some(TokenType::And)
    } else if same_text(text, "break") {
        Some(TokenType::Break)
    } else if same_text(text, "else") {
        Some(TokenType::Else)
    } else if same_text(text, "false") {
        Some(TokenType::False)
    } else if same_text(text, "for") {
        Some(TokenType::For)
    } else if same_text(text, "fn") {
        Some(TokenType::Fn)
    } else if same_text(text, "if") {
        Some(TokenType::If)
    } else if same_text(text, "or") {
        Some(TokenType::Or)
    } else if same_text(text, "return") {
        Some(TokenType::Return)
    } else if same_text(text, "true") {
        Some(TokenType::True)
    } else if same_text(text, "let") {
        Some(TokenType::Let)
    } else if same_text(text, "while") {
        Some(TokenType::While)
    } else {
        None
    }
}

/// One token: its kind, the text it was read from, the line it stands on and,
/// for literals, the literal's text. An `Error` token keeps its reason there.
#[derive(Debug, PartialEq, Eq)]
pub struct Token {
    pub ttype: TokenType,
    pub lexeme: String,
    pub line: usize,
    pub literal: Option<String>,
}

/// What a token holds, as plain values.
pub ghost struct TokenView {
    pub ttype: TokenType,
    pub lexeme: Seq<char>,
    pub line: usize,
    pub literal: Option<Seq<char>>,
}

impl TokenView {
    /// The literal where there is one, else the lexeme.
    pub open spec fn text(self) -> Seq<char> {
        match self.literal {
            Some(s) => s,
            None => self.lexeme,
        }
    }
}

impl View for Token {
    type V = TokenView;

    open spec fn view(&self) -> TokenView {
        TokenView {
            ttype: self.ttype,
            lexeme: self.lexeme@,
            line: self.line,
            literal: match self.literal {
                Some(s) => Some(s@),
                None => None,
            },
        }
    }
}

/// The tokens of a sequence, as plain values.
pub open spec fn tokens_view(tokens: Seq<Token>) -> Seq<TokenView> {
    Seq::new(tokens.len(), |i: int| tokens[i]@)
}

impl Clone for Token {
    fn clone(&self) -> (r: Self)
        ensures
            r@ == self@,
    {
        let literal = match &self.literal {
            Some(s) => Some(s.clone()),
            None => None,
        };
        Token { ttype: self.ttype, lexeme: self.lexeme.clone(), line: self.line, literal }
    }
}

impl Token {
    pub fn new(ttype: TokenType, lexeme: String, line: usize, literal: Option<String>) -> (t: Self)
        ensures
            t.ttype == ttype,
            t.lexeme == lexeme,
            t.line == line,
            t.literal == literal,
    {
        Self { ttype, lexeme, line, literal }
    }

    /// The text a diagnostic shows for this token: the literal where there is
    /// one, else the lexeme.
    pub fn text(&self) -> (r: String)
        ensures
            r@ == self@.text(),
    {
        match &self.literal {
            Some(s) => s.clone(),
            None => self.lexeme.clone(),
        }
    }
}

} // verus!
