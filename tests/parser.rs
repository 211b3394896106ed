use script_parser::ast::{Expression, Literal, Statement};
use script_parser::grammar::ErrorKind;
use script_parser::parse::{parse, parse_statement, parse_tokens, ParseError, Parsed};
use script_parser::token::{expect_identifier, expect_keyword, expect_number, expect_syntax, Token, TokenKind};

const KEYWORDS: [&str; 6] = ["function", "end", "return", "local", "if", "then"];

/// Splits a source whose lexemes are separated by spaces or newlines.
fn lex(src: &str) -> (Vec<char>, Vec<Token>) {
    let raw: Vec<char> = src.chars().collect();
    let mut tokens = Vec::new();
    let mut i = 0;
    while i < raw.len() {
        if raw[i] == ' ' || raw[i] == '\n' {
            i += 1;
            continue;
        }
        let start = i;
        while i < raw.len() && raw[i] != ' ' && raw[i] != '\n' {
            i += 1;
        }
        let text: String = raw[start..i].iter().collect();
        let first = text.chars().next().unwrap();
        let kind = if KEYWORDS.contains(&text.as_str()) {
            TokenKind::Keyword
        } else if first.is_ascii_digit() {
            TokenKind::Number
        } else if first.is_alphabetic() || first == '_' {
            TokenKind::Identifier
        } else {
            TokenKind::Syntax
        };
        tokens.push(Token::new(kind, &text, start));
    }
    (raw, tokens)
}

fn error_of(src: &str) -> ParseError {
    let (_, tokens) = lex(src);
    match parse_tokens(&tokens) {
        Err(e) => e,
        Ok(ast) => panic!("expected a syntax error, got {:?}", ast),
    }
}

fn literal_text(e: &Expression) -> (&'static str, String) {
    match e {
        Expression::Literal(Literal::Identifier(t)) => ("identifier", t.value.clone()),
        Expression::Literal(Literal::Number(t)) => ("number", t.value.clone()),
        other => panic!("not a literal: {:?}", other),
    }
}

#[test]
fn empty_program_is_empty_ast() {
    let ast = parse(&vec![], vec![]).unwrap();
    assert!(ast.is_empty());
}

#[test]
fn function_declaration_shape() {
    let (raw, tokens) = lex("function add ( a , b ) return a + b ; end");
    let ast = parse(&raw, tokens).unwrap();
    assert_eq!(ast.len(), 1);
    match &ast[0] {
        Statement::FunctionDeclaration(f) => {
            assert_eq!(f.name.value, "add");
            let params: Vec<&str> = f.parameters.iter().map(|t| t.value.as_str()).collect();
            assert_eq!(params, vec!["a", "b"]);
            assert_eq!(f.body.len(), 1);
            match &f.body[0] {
                Statement::Return(r) => match &r.expression {
                    Expression::BinaryOperation(b) => {
                        assert_eq!(b.operator.value, "+");
                        assert_eq!(literal_text(&b.left), ("identifier", "a".to_string()));
                        assert_eq!(literal_text(&b.right), ("identifier", "b".to_string()));
                    },
                    other => panic!("unexpected {:?}", other),
                },
                other => panic!("unexpected {:?}", other),
            }
        },
        other => panic!("unexpected {:?}", other),
    }
}

#[test]
fn function_with_many_parameters_and_statements() {
    let (raw, tokens) = lex("function f ( p , q , r ) local x p + q ; g ( x - 1 ) ; return x * r ; end");
    let ast = parse(&raw, tokens).unwrap();
    match &ast[0] {
        Statement::FunctionDeclaration(f) => {
            let params: Vec<&str> = f.parameters.iter().map(|t| t.value.as_str()).collect();
            assert_eq!(params, vec!["p", "q", "r"]);
            assert_eq!(f.body.len(), 3);
            assert!(matches!(f.body[0], Statement::Local(_)));
            assert!(matches!(f.body[1], Statement::Expression(Expression::FunctionCall(_))));
            assert!(matches!(f.body[2], Statement::Return(_)));
        },
        other => panic!("unexpected {:?}", other),
    }
}

#[test]
fn function_without_parameters_or_body() {
    let (raw, tokens) = lex("function f ( ) end");
    let ast = parse(&raw, tokens).unwrap();
    match &ast[0] {
        Statement::FunctionDeclaration(f) => {
            assert!(f.parameters.is_empty());
            assert!(f.body.is_empty());
        },
        other => panic!("unexpected {:?}", other),
    }
}

#[test]
fn local_with_binary_initializer() {
    let (raw, tokens) = lex("local x 5 + 1 ;");
    let ast = parse(&raw, tokens).unwrap();
    assert_eq!(ast.len(), 1);
    match &ast[0] {
        Statement::Local(l) => {
            assert_eq!(l.name.value, "x");
            match &l.expression {
                Expression::BinaryOperation(b) => {
                    assert_eq!(literal_text(&b.left), ("number", "5".to_string()));
                    assert_eq!(literal_text(&b.right), ("number", "1".to_string()));
                },
                other => panic!("unexpected {:?}", other),
            }
        },
        other => panic!("unexpected {:?}", other),
    }
}

#[test]
fn local_with_number_initializer() {
    let (raw, tokens) = lex("local x 5 ;");
    let ast = parse(&raw, tokens).unwrap();
    assert_eq!(ast.len(), 1);
    match &ast[0] {
        Statement::Local(l) => {
            assert_eq!(l.name.value, "x");
            assert_eq!(literal_text(&l.expression), ("number", "5".to_string()));
        },
        other => panic!("unexpected {:?}", other),
    }
}

#[test]
fn return_of_nested_calls() {
    let (raw, tokens) = lex("return foo ( bar ( x + 1 ) , 1 + 2 ) ;");
    let ast = parse(&raw, tokens).unwrap();
    match &ast[0] {
        Statement::Return(r) => match &r.expression {
            Expression::FunctionCall(c) => {
                assert_eq!(c.name.value, "foo");
                assert_eq!(c.arguments.len(), 2);
                match &c.arguments[0] {
                    Expression::FunctionCall(inner) => {
                        assert_eq!(inner.name.value, "bar");
                        assert_eq!(inner.arguments.len(), 1);
                    },
                    other => panic!("unexpected {:?}", other),
                }
                assert!(matches!(c.arguments[1], Expression::BinaryOperation(_)));
            },
            other => panic!("unexpected {:?}", other),
        },
        other => panic!("unexpected {:?}", other),
    }
}

#[test]
fn return_of_call_with_two_number_arguments() {
    let (raw, tokens) = lex("return foo ( 1 , 2 ) ;");
    let ast = parse(&raw, tokens).unwrap();
    assert_eq!(ast.len(), 1);
    match &ast[0] {
        Statement::Return(r) => match &r.expression {
            Expression::FunctionCall(c) => {
                assert_eq!(c.name.value, "foo");
                assert_eq!(c.arguments.len(), 2);
                assert_eq!(literal_text(&c.arguments[0]), ("number", "1".to_string()));
                assert_eq!(literal_text(&c.arguments[1]), ("number", "2".to_string()));
            },
            other => panic!("unexpected {:?}", other),
        },
        other => panic!("unexpected {:?}", other),
    }
}

#[test]
fn if_with_return_of_identifier() {
    let (raw, tokens) = lex("if a == b then return a ; end");
    let ast = parse(&raw, tokens).unwrap();
    assert_eq!(ast.len(), 1);
    match &ast[0] {
        Statement::If(i) => {
            match &i.test {
                Expression::BinaryOperation(b) => {
                    assert_eq!(b.operator.value, "==");
                    assert_eq!(literal_text(&b.left), ("identifier", "a".to_string()));
                    assert_eq!(literal_text(&b.right), ("identifier", "b".to_string()));
                },
                other => panic!("unexpected {:?}", other),
            }
            assert_eq!(i.body.len(), 1);
            match &i.body[0] {
                Statement::Return(r) => {
                    assert_eq!(literal_text(&r.expression), ("identifier", "a".to_string()))
                },
                other => panic!("unexpected {:?}", other),
            }
        },
        other => panic!("unexpected {:?}", other),
    }
}

#[test]
fn if_with_binary_test() {
    let (raw, tokens) = lex("if a == b then return a + 1 ; end");
    let ast = parse(&raw, tokens).unwrap();
    assert_eq!(ast.len(), 1);
    match &ast[0] {
        Statement::If(i) => {
            match &i.test {
                Expression::BinaryOperation(b) => {
                    assert_eq!(b.operator.value, "==");
                    assert_eq!(literal_text(&b.left), ("identifier", "a".to_string()));
                    assert_eq!(literal_text(&b.right), ("identifier", "b".to_string()));
                },
                other => panic!("unexpected {:?}", other),
            }
            assert_eq!(i.body.len(), 1);
            assert!(matches!(i.body[0], Statement::Return(_)));
        },
        other => panic!("unexpected {:?}", other),
    }
}

#[test]
fn several_top_level_statements_in_order() {
    let (raw, tokens) = lex("local a 1 + 2 ; print ( a * 2 ) ; return a - 1 ;");
    let ast = parse(&raw, tokens).unwrap();
    assert_eq!(ast.len(), 3);
    assert!(matches!(ast[0], Statement::Local(_)));
    assert!(matches!(ast[1], Statement::Expression(_)));
    assert!(matches!(ast[2], Statement::Return(_)));
}

#[test]
fn number_may_name_a_call() {
    let (raw, tokens) = lex("5 ( a + 1 ) ;");
    let ast = parse(&raw, tokens).unwrap();
    match &ast[0] {
        Statement::Expression(Expression::FunctionCall(c)) => assert_eq!(c.name.value, "5"),
        other => panic!("unexpected {:?}", other),
    }
}

#[test]
fn missing_comma_between_arguments() {
    let e = error_of("foo ( a + 1 b ) ;");
    assert_eq!(e, ParseError { position: 5, kind: ErrorKind::CommaBetweenArguments });
    let (raw, tokens) = lex("foo ( a + 1 b ) ;");
    let message = parse(&raw, tokens).unwrap_err();
    assert_eq!(message, "foo ( a + 1 b ) ;\n            ^\nExpected comma between function call arguments");
}

#[test]
fn two_literal_arguments_without_comma() {
    let e = error_of("foo ( 1 2 ) ;");
    assert_eq!(e, ParseError { position: 3, kind: ErrorKind::CommaBetweenArguments });
    let (raw, tokens) = lex("foo ( 1 2 ) ;");
    let message = parse(&raw, tokens).unwrap_err();
    assert_eq!(message, "foo ( 1 2 ) ;\n        ^\nExpected comma between function call arguments");
}

#[test]
fn missing_closing_parenthesis() {
    assert_eq!(
        error_of("foo ( a + 1 ;"),
        ParseError { position: 5, kind: ErrorKind::CommaBetweenArguments }
    );
    assert_eq!(error_of("foo ("), ParseError { position: 2, kind: ErrorKind::ArgumentExpression });
    assert_eq!(
        error_of("foo ( 1 ;"),
        ParseError { position: 3, kind: ErrorKind::CommaBetweenArguments }
    );
    assert_eq!(error_of("foo ( 1"), ParseError { position: 3, kind: ErrorKind::CommaBetweenArguments });
}

#[test]
fn nested_error_is_not_recovered() {
    let e = error_of("function f ( ) if x == 1 then g ( 1 2 ) ; end end");
    assert_eq!(e, ParseError { position: 12, kind: ErrorKind::CommaBetweenArguments });
}

#[test]
fn each_error_kind() {
    let cases: Vec<(&str, usize, ErrorKind)> = vec![
        ("foo ( ; ) ;", 2, ErrorKind::ArgumentExpression),
        ("a + ;", 2, ErrorKind::RightOperand),
        ("a", 1, ErrorKind::ExpressionSemicolon),
        ("a b ;", 1, ErrorKind::ExpressionSemicolon),
        ("a + return ;", 2, ErrorKind::RightOperand),
        ("function 5 ( ) end", 1, ErrorKind::FunctionName),
        ("function f a ) end", 2, ErrorKind::FunctionOpenParen),
        ("function f ( a b ) end", 4, ErrorKind::ParameterSeparator),
        ("function f ( a , 1 ) end", 5, ErrorKind::ParameterName),
        ("function f ( ) then", 4, ErrorKind::FunctionBodyStatement),
        ("return ;", 1, ErrorKind::ReturnExpression),
        ("return a + 1", 4, ErrorKind::ReturnSemicolon),
        ("local 5 a + 1 ;", 1, ErrorKind::LocalName),
        ("local x ;", 2, ErrorKind::LocalExpression),
        ("local x a + 1 end", 5, ErrorKind::LocalSemicolon),
        ("if then end", 1, ErrorKind::IfTest),
        ("if a == b end", 4, ErrorKind::IfThen),
        ("if a == b then", 5, ErrorKind::IfBodyStatement),
        ("a + 1 end", 3, ErrorKind::ExpressionSemicolon),
        ("end", 0, ErrorKind::InvalidToken),
        ("a + 1 ; ;", 4, ErrorKind::InvalidToken),
    ];
    for (src, position, kind) in cases {
        assert_eq!(error_of(src), ParseError { position, kind }, "source: {}", src);
    }
}

#[test]
fn diagnostic_points_at_token_on_its_line() {
    let (raw, tokens) = lex("local a 1 + 2 ;\nlocal b ;\nreturn b + 1 ;");
    let message = parse(&raw, tokens).unwrap_err();
    assert_eq!(message, "local b ;\n        ^\nExpected valid expression in local declaration");
}

#[test]
fn diagnostic_at_end_of_input() {
    let (raw, tokens) = lex("return a + 1");
    let message = parse(&raw, tokens).unwrap_err();
    assert_eq!(message, "return a + 1\n            ^\nExpected semicolon in return statement");
}

#[test]
fn parsing_twice_gives_the_same_tree() {
    let (raw, tokens) = lex("function f ( a ) if a < 1 then return g ( a + 1 ) ; end end");
    let first = parse(&raw, tokens.clone()).unwrap();
    let second = parse(&raw, tokens).unwrap();
    assert_eq!(format!("{:?}", first), format!("{:?}", second));
}

#[test]
fn statement_rule_advances() {
    let (_, tokens) = lex("x + 1 ; return y * 2 ;");
    match parse_statement(&tokens, 0) {
        Parsed::Matched(_, next) => assert_eq!(next, 4),
        other => panic!("unexpected {:?}", other),
    }
    match parse_statement(&tokens, 4) {
        Parsed::Matched(_, next) => assert_eq!(next, 9),
        other => panic!("unexpected {:?}", other),
    }
    assert!(matches!(parse_statement(&tokens, 9), Parsed::NoMatch));
}

#[test]
fn token_predicates() {
    let (_, tokens) = lex("if x 5 (");
    assert!(expect_keyword(&tokens, 0, "if"));
    assert!(!expect_keyword(&tokens, 0, "end"));
    assert!(!expect_keyword(&tokens, 1, "x"));
    assert!(expect_identifier(&tokens, 1));
    assert!(!expect_identifier(&tokens, 2));
    assert!(expect_number(&tokens, 2));
    assert!(expect_syntax(&tokens, 3, "("));
    assert!(!expect_syntax(&tokens, 3, ")"));
    assert!(!expect_keyword(&tokens, 4, "if"));
    assert!(!expect_syntax(&tokens, 9, "("));
    assert!(!expect_identifier(&tokens, 4));
    assert!(!expect_number(&tokens, 4));
}

#[test]
fn duplicate_keeps_the_token() {
    let t = Token::new(TokenKind::Identifier, "name", 7);
    let d = t.duplicate();
    assert_eq!(d.value, "name");
    assert_eq!(d.kind, TokenKind::Identifier);
    assert_eq!(d.loc.offset, 7);
}

#[test]
fn statements_tile_the_tokens() {
    let (raw, tokens) = lex("local a 1 + 2 ; if a > 2 then f ( a - 1 ) ; end function g ( ) end");
    let mut index = 0;
    let mut count = 0;
    while index < tokens.len() {
        match parse_statement(&tokens, index) {
            Parsed::Matched(_, next) => {
                assert!(next > index);
                index = next;
                count += 1;
            },
            other => panic!("unexpected {:?}", other),
        }
    }
    assert_eq!(index, tokens.len());
    let ast = parse(&raw, tokens).unwrap();
    assert_eq!(ast.len(), count);
    assert_eq!(count, 3);
}

#[test]
fn if_body_may_be_empty_and_nested() {
    let (raw, tokens) = lex("if a == 1 then if b == 2 then end end");
    let ast = parse(&raw, tokens).unwrap();
    match &ast[0] {
        Statement::If(outer) => {
            assert_eq!(outer.body.len(), 1);
            match &outer.body[0] {
                Statement::If(inner) => assert!(inner.body.is_empty()),
                other => panic!("unexpected {:?}", other),
            }
        },
        other => panic!("unexpected {:?}", other),
    }
}
