use blum::lexer::Lexer;
use blum::token::{keyword, same_text, Token, TokenType};

fn lex(source: &str) -> Vec<Token> {
    Lexer::new(source).lex()
}

fn kinds(source: &str) -> Vec<TokenType> {
    lex(source).iter().map(|t| t.ttype).collect()
}

#[test]
fn empty_text_gives_the_end_marker_alone() {
    let tokens = lex("");
    assert_eq!(tokens.len(), 1);
    assert_eq!(tokens[0], Token::new(TokenType::Eof, String::new(), 1, None));
}

#[test]
fn punctuation_is_one_token_each() {
    assert_eq!(
        kinds("(){},:.-+?;/*"),
        vec![
            TokenType::LeftParen, TokenType::RightParen, TokenType::LeftBrace, TokenType::RightBrace, TokenType::Comma, TokenType::Colon, TokenType::Dot, TokenType::Minus, TokenType::Plus,
            TokenType::QuestionMark, TokenType::Semicolon, TokenType::Slash, TokenType::Star, TokenType::Eof
        ]
    );
}

#[test]
fn two_character_operators() {
    assert_eq!(
        kinds("== != <= >= = ! < >"),
        vec![TokenType::EqualEqual, TokenType::BangEqual, TokenType::LessEqual, TokenType::GreaterEqual, TokenType::Equal, TokenType::Bang, TokenType::Less, TokenType::Greater, TokenType::Eof]
    );
    let tokens = lex("a<=b");
    assert_eq!(tokens[1].lexeme, "<=");
    assert_eq!(tokens[1].literal, None);
}

#[test]
fn arrow_is_minus_then_greater() {
    assert_eq!(kinds("->"), vec![TokenType::Minus, TokenType::Greater, TokenType::Eof]);
}

#[test]
fn every_keyword_is_found() {
    assert_eq!(
        kinds("and break else false for fn if or return true let while"),
        vec![TokenType::And, TokenType::Break, TokenType::Else, TokenType::False, TokenType::For, TokenType::Fn, TokenType::If, TokenType::Or, TokenType::Return, TokenType::True, TokenType::Let, TokenType::While, TokenType::Eof]
    );
}

#[test]
fn keyword_match_is_exact() {
    assert_eq!(kinds("fnx Fn lets _let"), vec![TokenType::Identifier, TokenType::Identifier, TokenType::Identifier, TokenType::Identifier, TokenType::Eof]);
    assert_eq!(keyword("fn"), Some(TokenType::Fn));
    assert_eq!(keyword("while"), Some(TokenType::While));
    assert_eq!(keyword("f"), None);
    assert_eq!(keyword(""), None);
    assert_eq!(keyword("FN"), None);
}

#[test]
fn same_text_compares_characters() {
    assert!(same_text("abc", "abc"));
    assert!(!same_text("abc", "abd"));
    assert!(!same_text("abc", "ab"));
    assert!(same_text("", ""));
    assert!(same_text("héllo", "héllo"));
}

#[test]
fn identifiers_keep_their_text() {
    let tokens = lex("foo_1 Bar");
    assert_eq!(tokens[0], Token::new(TokenType::Identifier, "foo_1".to_owned(), 1, None));
    assert_eq!(tokens[1], Token::new(TokenType::Identifier, "Bar".to_owned(), 1, None));
}

#[test]
fn numbers_carry_their_text() {
    let tokens = lex("10 3.25 7.");
    assert_eq!(
        tokens[0],
        Token::new(TokenType::Number, "10".to_owned(), 1, Some("10".to_owned()))
    );
    assert_eq!(
        tokens[1],
        Token::new(TokenType::Number, "3.25".to_owned(), 1, Some("3.25".to_owned()))
    );
    assert_eq!(
        tokens[2],
        Token::new(TokenType::Number, "7".to_owned(), 1, Some("7".to_owned()))
    );
    assert_eq!(tokens[3].ttype, TokenType::Dot);
}

#[test]
fn strings_carry_their_content() {
    let tokens = lex("\"hi there\" x");
    assert_eq!(
        tokens[0],
        Token::new(
            TokenType::String,
            "\"hi there\"".to_owned(),
            1,
            Some("hi there".to_owned())
        )
    );
    assert_eq!(tokens[1].ttype, TokenType::Identifier);
}

#[test]
fn unterminated_string_is_an_error_token() {
    let tokens = lex("\"abc\nx");
    assert_eq!(
        tokens[0],
        Token::new(
            TokenType::Error,
            "\"abc".to_owned(),
            1,
            Some("unterminated string".to_owned())
        )
    );
    assert_eq!(tokens[1], Token::new(TokenType::Identifier, "x".to_owned(), 2, None));
    assert_eq!(kinds("\"abc"), vec![TokenType::Error, TokenType::Eof]);
}

#[test]
fn unknown_character_is_an_error_token() {
    let tokens = lex("a # b");
    assert_eq!(
        tokens[1],
        Token::new(
            TokenType::Error,
            "#".to_owned(),
            1,
            Some("unexpected character".to_owned())
        )
    );
    assert_eq!(tokens[2].ttype, TokenType::Identifier);
    assert_eq!(tokens[1].text(), "unexpected character");
    assert_eq!(tokens[2].text(), "b");
}

#[test]
fn lines_are_counted() {
    let tokens = lex("a\n b\r\n\n\tc");
    assert_eq!(tokens[0].line, 1);
    assert_eq!(tokens[1].line, 2);
    assert_eq!(tokens[2].line, 4);
    assert_eq!(tokens[3], Token::new(TokenType::Eof, String::new(), 4, None));
}

#[test]
fn the_end_marker_comes_last() {
    for source in ["", "fn", "let a = 10", "  \n", "\"open"] {
        let tokens = lex(source);
        assert_eq!(tokens.last().unwrap().ttype, TokenType::Eof);
        assert_eq!(tokens.iter().filter(|t| t.ttype == TokenType::Eof).count(), 1);
    }
}

#[test]
fn lexing_twice_gives_the_same_kinds() {
    let source = "fn f(a: i32, b: f64) -> i32 { let x = 1.5 # \"s\" }";
    assert_eq!(kinds(source), kinds(source));
    assert_eq!(lex(source), lex(source));
}

#[test]
fn token_clone_keeps_every_field() {
    let token = Token::new(TokenType::Number, "12".to_owned(), 3, Some("12".to_owned()));
    assert_eq!(token.clone(), token);
    assert_eq!(token.ttype, TokenType::Number);
    assert_eq!(token.lexeme, "12");
    assert_eq!(token.line, 3);
    assert_eq!(token.literal, Some("12".to_owned()));
}

#[test]
fn keyword_kinds_are_told_apart() {
    assert!(TokenType::Fn.is_keyword());
    assert!(TokenType::While.is_keyword());
    assert!(!TokenType::Identifier.is_keyword());
    assert!(!TokenType::Eof.is_keyword());
    assert!(!TokenType::Error.is_keyword());
}
