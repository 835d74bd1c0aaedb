use blum::cursor::TokenIter;
use blum::error::{error, error_at_token, Error, ErrorKind};
use blum::expr::{Expr, Parameter, Parameters};
use blum::lexer::Lexer;
use blum::parser::{parse, Parser};
use blum::token::{Token, TokenType};

fn params(entries: &[(&str, &str)]) -> Parameters {
    let mut p = Parameters::new();
    for (name, ptype) in entries {
        p.insert(name.to_string(), ptype.to_string());
    }
    p
}

fn function(name: &str, rettype: &str, entries: &[(&str, &str)]) -> Expr {
    Expr::Function {
        name: name.to_owned(),
        rettype: rettype.to_owned(),
        params: params(entries),
        body: Box::new(Expr::Block(vec![])),
    }
}

#[test]
fn empty_function() {
    let (ast, diagnostics) = parse("fn main() { }");
    assert_eq!(ast, vec![function("main", "void", &[])]);
    assert_eq!(diagnostics, vec![]);
}

#[test]
fn empty_function_under_any_name() {
    for name in ["f", "main", "_x1", "Long_Name"] {
        let (ast, diagnostics) = parse(&format!("fn {} ( ) {{ }}", name));
        assert_eq!(ast, vec![function(name, "void", &[])]);
        assert_eq!(diagnostics, vec![]);
    }
}

#[test]
fn function_with_parameters_and_return_type() {
    let (ast, diagnostics) = parse("fn add(a: i32, b: f64) -> i64 { }");
    assert_eq!(diagnostics, vec![]);
    assert_eq!(ast, vec![function("add", "i64", &[("a", "i32"), ("b", "f64")])]);
    match &ast[0] {
        Expr::Function { params, rettype, .. } => {
            assert_eq!(rettype, "i64");
            assert_eq!(params.len(), 2);
            assert_eq!(params.get("a"), Some("i32".to_owned()));
            assert_eq!(params.get("b"), Some("f64".to_owned()));
            assert_eq!(params.get("c"), None);
        }
        other => panic!("{:?}", other),
    }
}

#[test]
fn parameters_show_the_last_type_of_a_name() {
    let p = params(&[("a", "i32"), ("b", "f64"), ("a", "u8")]);
    assert_eq!(p.len(), 3);
    assert_eq!(p.get("a"), Some("u8".to_owned()));
    assert_eq!(p.get("b"), Some("f64".to_owned()));
    assert_eq!(Parameters::new().get("a"), None);
    assert_eq!(
        p.entries[0],
        Parameter { name: "a".to_owned(), ptype: "i32".to_owned() }
    );
}

#[test]
fn two_functions_in_a_row() {
    let (ast, diagnostics) = parse("fn a() {}\nfn b(x: T) -> R {}");
    assert_eq!(diagnostics, vec![]);
    assert_eq!(ast, vec![function("a", "void", &[]), function("b", "R", &[("x", "T")])]);
}

#[test]
fn trailing_separator_before_the_end_is_taken() {
    let (ast, diagnostics) = parse("fn f(a: i32, ) {}");
    assert_eq!(diagnostics, vec![]);
    assert_eq!(ast, vec![function("f", "void", &[("a", "i32")])]);
}

#[test]
fn missing_closing_parenthesis() {
    for source in ["fn f(", "fn f(a", "fn f(a:", "fn f(a: i32", "fn f(a: i32,", "fn f(a: i32, b: f64"] {
        let (ast, diagnostics) = parse(source);
        assert_eq!(ast, vec![]);
        assert_eq!(diagnostics.len(), 1);
        assert_eq!(diagnostics[0].kind, ErrorKind::EndOfInput);
        assert_eq!(diagnostics[0].line, 1);
    }
}

#[test]
fn missing_comma() {
    let mut parser = Parser::new("fn f(a: i32 b: f64) {}");
    let first = parser.tokens.next().unwrap();
    let e = parser.parse_next(first).unwrap_err();
    assert_eq!(e, Error::unexpected(Some(TokenType::Comma), TokenType::Identifier, 1));
    assert_eq!(parser.ast, vec![]);
    // the token that did not fit was not consumed
    assert_eq!(parser.tokens.current().unwrap().lexeme, "b");

    let (ast, diagnostics) = parse("fn f(a: i32 b: f64) {}");
    assert_eq!(ast, vec![]);
    assert_eq!(diagnostics[0].kind, ErrorKind::UnexpectedToken);
    assert_eq!(diagnostics[0].expected, Some(TokenType::Comma));
    // the declaration gave that one diagnostic; each of the six tokens left
    // over is then a top-level form of its own
    assert_eq!(diagnostics.len(), 7);
    assert_eq!(diagnostics[1], Error::unexpected(None, TokenType::Identifier, 1));
    assert_eq!(diagnostics[6], Error::unexpected(None, TokenType::RightBrace, 1));
}

#[test]
fn missing_closing_brace() {
    let (ast, diagnostics) = parse("fn f() {");
    assert_eq!(ast, vec![]);
    assert_eq!(diagnostics, vec![Error::end_of_input(1)]);
}

#[test]
fn block_ends_at_the_first_closing_brace() {
    let mut parser = Parser::new("{ a { b } c }");
    assert_eq!(parser.try_block(), Ok(Expr::Block(vec![])));
    assert_eq!(parser.tokens.position(), 5);
    assert_eq!(parser.tokens.current().unwrap().lexeme, "c");
}

#[test]
fn block_without_end() {
    let mut parser = Parser::from_tokens(vec![
        Token::new(TokenType::LeftBrace, "{".to_owned(), 3, None),
        Token::new(TokenType::Identifier, "a".to_owned(), 4, None),
    ]);
    assert_eq!(parser.try_block(), Err(Error::end_of_input(4)));
    assert_eq!(parser.tokens.position(), 2);
}

#[test]
fn other_keywords_are_not_supported_yet() {
    let (ast, diagnostics) = parse("while");
    assert_eq!(ast, vec![]);
    assert_eq!(diagnostics, vec![Error::unsupported(TokenType::While, 1)]);
    assert_eq!(diagnostics[0].kind, ErrorKind::UnsupportedConstruct);

    let mut parser = Parser::new("\nreturn");
    parser.tokens.progress();
    assert_eq!(
        parser.try_keyword(TokenType::Return),
        Err(Error::unsupported(TokenType::Return, 2))
    );
}

#[test]
fn top_level_token_that_opens_nothing() {
    let (ast, diagnostics) = parse("\n)");
    assert_eq!(ast, vec![]);
    assert_eq!(diagnostics, vec![Error::unexpected(None, TokenType::RightParen, 2)]);
}

#[test]
fn error_token_turns_into_a_diagnostic() {
    let (ast, diagnostics) = parse("#");
    assert_eq!(ast, vec![]);
    assert_eq!(diagnostics.len(), 1);
    assert_eq!(diagnostics[0].kind, ErrorKind::LexError);
    assert_eq!(diagnostics[0].message, "unexpected character");
    assert_eq!(diagnostics[0].line, 1);
    assert_eq!(diagnostics[0].found, Some(TokenType::Error));
}

#[test]
fn parse_goes_on_after_a_diagnostic() {
    let (ast, diagnostics) = parse("# fn f() {} )\nfn g() {}");
    assert_eq!(ast, vec![function("f", "void", &[]), function("g", "void", &[])]);
    assert_eq!(diagnostics.len(), 2);
    assert_eq!(diagnostics[0].kind, ErrorKind::LexError);
    assert_eq!(diagnostics[1], Error::unexpected(None, TokenType::RightParen, 1));
}

#[test]
fn parser_parse_fills_the_tree() {
    let mut parser = Parser::new("fn main() { }");
    let diagnostics = parser.parse();
    assert_eq!(diagnostics, vec![]);
    assert_eq!(parser.ast, vec![function("main", "void", &[])]);
    assert_eq!(parser.tokens.current(), None);
}

#[test]
fn return_type_rule() {
    let mut parser = Parser::new("{");
    assert_eq!(parser.try_function_return_type(), Ok(None));
    assert_eq!(parser.tokens.position(), 0);

    let mut parser = Parser::new("-> i32 {");
    assert_eq!(parser.try_function_return_type(), Ok(Some("i32".to_owned())));
    assert_eq!(parser.tokens.position(), 3);

    let mut parser = Parser::new("- - i32");
    assert_eq!(
        parser.try_function_return_type(),
        Err(Error::unexpected(Some(TokenType::Greater), TokenType::Minus, 1))
    );
    assert_eq!(parser.tokens.position(), 3);

    let mut parser = Parser::new("-> 5 {");
    assert_eq!(
        parser.try_function_return_type(),
        Err(Error::unexpected(Some(TokenType::Identifier), TokenType::Number, 1))
    );

    let mut parser = Parser::new("->");
    assert_eq!(parser.try_function_return_type(), Err(Error::end_of_input(1)));

    let mut parser = Parser::new("x");
    assert_eq!(
        parser.try_function_return_type(),
        Err(Error::unexpected(Some(TokenType::LeftBrace), TokenType::Identifier, 1))
    );

    let mut parser = Parser::new("");
    assert_eq!(parser.try_function_return_type(), Err(Error::end_of_input(1)));
}

#[test]
fn type_map_with_other_terminators() {
    let mut parser = Parser::new("a: i32; b: f64 }");
    assert_eq!(
        parser.try_type_map(TokenType::RightBrace, TokenType::Semicolon),
        Ok(params(&[("a", "i32"), ("b", "f64")]))
    );
    let mut parser = Parser::new("}");
    assert_eq!(
        parser.try_type_map(TokenType::RightBrace, TokenType::Comma),
        Ok(Parameters::new())
    );
}

#[test]
fn type_map_failures() {
    let mut parser = Parser::new("a i32)");
    assert_eq!(
        parser.try_type_map(TokenType::RightParen, TokenType::Comma),
        Err(Error::unexpected(Some(TokenType::Colon), TokenType::Identifier, 1))
    );
    let mut parser = Parser::new("a: 5)");
    assert_eq!(
        parser.try_type_map(TokenType::RightParen, TokenType::Comma),
        Err(Error::unexpected(Some(TokenType::Identifier), TokenType::Number, 1))
    );
    let mut parser = Parser::new("5: a)");
    assert_eq!(
        parser.try_type_map(TokenType::RightParen, TokenType::Comma),
        Err(Error::unexpected(Some(TokenType::Identifier), TokenType::Number, 1))
    );
}

#[test]
fn type_map_helper_adds_one_entry() {
    let mut parser = Parser::new("a: i32, b");
    let mut result = Parameters::new();
    let next = parser.tokens.next();
    assert_eq!(
        parser.try_type_map_helper(&mut result, next, TokenType::RightParen, TokenType::Comma),
        Ok(true)
    );
    assert_eq!(result, params(&[("a", "i32")]));
    assert_eq!(parser.tokens.position(), 4);
    assert_eq!(
        parser.try_type_map_helper(&mut result, None, TokenType::RightParen, TokenType::Comma),
        Err(Error::end_of_input(1))
    );
    assert_eq!(result, params(&[("a", "i32")]));
}

#[test]
fn type_map_next_reads_colon_and_type() {
    let mut parser = Parser::new(": i32");
    let name = Token::new(TokenType::Identifier, "a".to_owned(), 1, None);
    assert_eq!(parser.try_type_map_next(name), Ok(("a".to_owned(), "i32".to_owned())));
}

#[test]
fn try_function_reads_behind_the_keyword() {
    let mut parser = Parser::new("main() {}");
    assert_eq!(parser.try_function(), Ok(function("main", "void", &[])));
    let mut parser = Parser::new("() {}");
    assert_eq!(
        parser.try_function(),
        Err(Error::unexpected(Some(TokenType::Identifier), TokenType::LeftParen, 1))
    );
    let mut parser = Parser::new("main {}");
    assert_eq!(
        parser.try_function(),
        Err(Error::unexpected(Some(TokenType::LeftParen), TokenType::LeftBrace, 1))
    );
}

#[test]
fn try_value_until_is_not_supported_yet() {
    let mut parser = Parser::new("a + 20;");
    assert_eq!(
        parser.try_value_until(TokenType::Semicolon),
        Err(Error::unsupported(TokenType::Semicolon, 1))
    );
    assert_eq!(parser.tokens.position(), 0);
}

#[test]
fn cursor_looks_one_token_ahead() {
    let mut cursor = TokenIter::new(Lexer::new("a b").lex());
    assert_eq!(cursor.current().unwrap().lexeme, "a");
    assert_eq!(cursor.current().unwrap().lexeme, "a");
    assert_eq!(cursor.expect_and_progress(TokenType::Number), None);
    assert_eq!(cursor.position(), 0);
    assert_eq!(cursor.expect_and_progress(TokenType::Identifier).unwrap().lexeme, "a");
    assert_eq!(cursor.position(), 1);
    assert_eq!(cursor.mismatch(None), Error::unexpected(None, TokenType::Identifier, 1));
    assert_eq!(cursor.next().unwrap().lexeme, "b");
    assert_eq!(cursor.last_line(), 1);
    assert_eq!(cursor.mismatch(Some(TokenType::Comma)), Error::end_of_input(1));
    cursor.progress();
    assert_eq!(cursor.position(), 3);
    assert_eq!(cursor.next(), None);
    cursor.progress();
    assert_eq!(cursor.position(), 3);
    assert_eq!(cursor.expect(TokenType::Comma), Err(Error::end_of_input(1)));
    assert_eq!(cursor.line(), 1);
}

#[test]
fn diagnostics_are_built_from_their_parts() {
    let e = error(ErrorKind::LexError, 7, "bad");
    assert_eq!(e.kind, ErrorKind::LexError);
    assert_eq!(e.line, 7);
    assert_eq!(e.message, "bad");
    assert_eq!(e.expected, None);
    assert_eq!(e.found, None);
    let token = Token::new(TokenType::Star, "*".to_owned(), 9, None);
    let e = error_at_token(ErrorKind::UnexpectedToken, &token, "here");
    assert_eq!(e.line, 9);
    assert_eq!(e.found, Some(TokenType::Star));
    assert_eq!(e.message, "here");
    let bad = Token::new(TokenType::Error, "#".to_owned(), 2, Some("why".to_owned()));
    let e = Error::lex_error(&bad);
    assert_eq!(e.kind, ErrorKind::LexError);
    assert_eq!(e.message, "why");
    assert_eq!(e.line, 2);
}
