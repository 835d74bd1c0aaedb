use blum::error::ErrorKind;
use blum::expr::{Expr, Value};
use blum::lexer::Lexer;
use blum::statement::{parse_number, Let, Parser, Statement};
use blum::token::{Token, TokenType};

fn parser(source: &str) -> Parser {
    Parser::new(Lexer::new(source))
}

#[test]
fn basic_let() {
    let source = "let a = 10";
    let lexer = Lexer::new(source);
    let mut parser = Parser::new(lexer);

    let let_stmt = parser.try_let_statement().unwrap();
    let rhand = Let {
        name: "a".to_owned(),
        value: Expr::Value(Value::Int(10)),
    };
    assert_eq!(let_stmt, Statement::Let(rhand))
}

#[test]
fn let_gives_no_diagnostic_and_one_statement() {
    let mut p = parser("let a = 10");
    let statement = p.try_let_statement();
    assert_eq!(
        statement,
        Ok(Statement::Let(Let { name: "a".to_owned(), value: Expr::Value(Value::Int(10)) }))
    );
    p.push(statement.unwrap());
    let ast = p.finish();
    assert_eq!(
        ast,
        vec![Statement::Let(Let { name: "a".to_owned(), value: Expr::Value(Value::Int(10)) })]
    );
}

#[test]
fn let_with_the_largest_integer() {
    let mut p = parser("let x = 170141183460469231731687303715884105727");
    assert_eq!(
        p.try_let_statement(),
        Ok(Statement::Let(Let {
            name: "x".to_owned(),
            value: Expr::Value(Value::Int(i128::MAX)),
        }))
    );
}

#[test]
fn let_beyond_the_largest_integer_is_a_float() {
    let mut p = parser("let x = 170141183460469231731687303715884105728");
    assert_eq!(
        p.try_let_statement(),
        Ok(Statement::Let(Let {
            name: "x".to_owned(),
            value: Expr::Value(Value::Float(
                "170141183460469231731687303715884105728".to_owned()
            )),
        }))
    );
}

#[test]
fn let_with_a_fraction_is_a_float() {
    let mut p = parser("let x = 2.5");
    let got = p.try_let_statement().unwrap();
    let Statement::Let(l) = got;
    assert_eq!(l.name, "x");
    match l.value {
        Expr::Value(Value::Float(text)) => {
            assert_eq!(text, "2.5");
            assert_eq!(text.parse::<f64>().unwrap(), 2.5);
        }
        other => panic!("{:?}", other),
    }
}

#[test]
fn let_with_a_string() {
    let mut p = parser("let s = \"hi\"");
    assert_eq!(
        p.try_let_statement(),
        Ok(Statement::Let(Let {
            name: "s".to_owned(),
            value: Expr::Value(Value::String("hi".to_owned())),
        }))
    );
}

#[test]
fn parse_number_reads_base_ten() {
    assert_eq!(parse_number("0"), Value::Int(0));
    assert_eq!(parse_number("10"), Value::Int(10));
    assert_eq!(parse_number("0042"), Value::Int(42));
    assert_eq!(parse_number("123456789"), Value::Int(123456789));
    assert_eq!(
        parse_number("170141183460469231731687303715884105727"),
        Value::Int(i128::MAX)
    );
    assert_eq!(
        parse_number("0000170141183460469231731687303715884105727"),
        Value::Int(i128::MAX)
    );
    assert_eq!(
        parse_number("170141183460469231731687303715884105728"),
        Value::Float("170141183460469231731687303715884105728".to_owned())
    );
    assert_eq!(
        parse_number("999999999999999999999999999999999999999999"),
        Value::Float("999999999999999999999999999999999999999999".to_owned())
    );
    assert_eq!(parse_number("1.5"), Value::Float("1.5".to_owned()));
    assert_eq!(parse_number(""), Value::Float(String::new()));
}

#[test]
fn let_without_a_name_is_unexpected() {
    let mut p = parser("let = 10");
    let e = p.try_let_statement().unwrap_err();
    assert_eq!(e.kind, ErrorKind::UnexpectedToken);
    assert_eq!(e.expected, Some(TokenType::Identifier));
    assert_eq!(e.found, Some(TokenType::Equal));
    assert_eq!(e.line, 1);
    assert_eq!(e.message, "unexpected token");
}

#[test]
fn let_without_the_keyword_consumes_nothing() {
    let mut p = parser("a = 10");
    let e = p.try_let_statement().unwrap_err();
    assert_eq!(e.kind, ErrorKind::UnexpectedToken);
    assert_eq!(e.expected, Some(TokenType::Let));
    assert_eq!(e.found, Some(TokenType::Identifier));
    assert_eq!(p.advance().unwrap().lexeme, "a");
}

#[test]
fn let_cut_off_is_end_of_input() {
    for source in ["let", "let a", "let a ="] {
        let mut p = parser(source);
        let e = p.try_let_statement().unwrap_err();
        assert_eq!(e.kind, ErrorKind::EndOfInput);
        assert_eq!(e.message, "unexpected end of input");
    }
}

#[test]
fn other_expressions_are_not_supported_yet() {
    let mut p = parser("let a = b");
    let e = p.try_let_statement().unwrap_err();
    assert_eq!(e.kind, ErrorKind::UnsupportedConstruct);
    assert_eq!(e.found, Some(TokenType::Identifier));
    assert_eq!(e.message, "construct not supported yet");
}

#[test]
fn read_expression_consumes_one_token() {
    let mut p = parser("1 2");
    assert_eq!(p.read_expression(), Ok(Expr::Value(Value::Int(1))));
    assert_eq!(p.read_expression(), Ok(Expr::Value(Value::Int(2))));
    assert_eq!(p.read_expression().unwrap_err().kind, ErrorKind::EndOfInput);
    assert_eq!(p.read_expression().unwrap_err().kind, ErrorKind::EndOfInput);
}

#[test]
fn advance_returns_none_past_the_end() {
    let mut p = Parser::from_tokens(vec![
        Token::new(TokenType::Let, "let".to_owned(), 1, None),
        Token::new(TokenType::Identifier, "a".to_owned(), 1, None),
    ]);
    assert_eq!(p.advance().unwrap().ttype, TokenType::Let);
    assert_eq!(p.advance().unwrap().lexeme, "a");
    assert_eq!(p.advance(), None);
    assert_eq!(p.advance(), None);
    assert_eq!(p.finish(), vec![]);
}

#[test]
fn expect_consumes_only_on_a_match() {
    let mut p = parser("let a");
    assert_eq!(p.expect(TokenType::Identifier), None);
    assert_eq!(p.expect(TokenType::Let).unwrap().ttype, TokenType::Let);
    assert_eq!(p.expect(TokenType::Let), None);
    assert_eq!(p.expect(TokenType::Identifier).unwrap().lexeme, "a");
    assert_eq!(p.expect(TokenType::Eof).unwrap().ttype, TokenType::Eof);
    assert_eq!(p.expect(TokenType::Eof), None);
}
