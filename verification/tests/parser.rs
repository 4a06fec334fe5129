use minibasic::ast::{Expression, ForLoop, Line, Program, Statement};
use minibasic::lexer::tokenize;
use minibasic::parser::{parse, ParseError, ParseErrorKind, Parser};
use minibasic::token::Token;

fn num(text: &str) -> Expression {
    Expression::Number(text.to_string())
}

fn var(name: &str) -> Expression {
    Expression::Variable(name.to_string())
}

fn bin(left: Expression, operator: Token, right: Expression) -> Expression {
    Expression::Binary { left: Box::new(left), operator, right: Box::new(right) }
}

fn call(name: &str, arguments: Vec<Expression>) -> Expression {
    Expression::FunctionCall { name: name.to_string(), arguments }
}

fn statements(source: &str) -> Vec<Statement> {
    match parse(tokenize(source)) {
        Ok(program) => program.lines.into_iter().map(|line| line.statement).collect(),
        Err(e) => panic!("{}", e.message()),
    }
}

fn expression(source: &str) -> Expression {
    let mut found = statements(&format!("X = {}", source));
    assert_eq!(found.len(), 1);
    match found.remove(0) {
        Statement::Let { variable, expression } => {
            assert_eq!(variable, "X");
            expression
        }
        other => panic!("{:?}", other),
    }
}

fn failure(source: &str) -> ParseError {
    match parse(tokenize(source)) {
        Ok(program) => panic!("{:?}", program),
        Err(e) => e,
    }
}

#[test]
fn empty_program() {
    assert_eq!(parse(tokenize("")), Ok(Program { lines: vec![] }));
    assert_eq!(parse(tokenize("\n\n\n")), Ok(Program { lines: vec![] }));
    assert_eq!(parse(vec![]), Ok(Program { lines: vec![] }));
    assert_eq!(Program::new(), Program { lines: vec![] });
}

#[test]
fn lines_are_numbered_in_order_from_zero() {
    let program = parse(tokenize("10 \nPRINT 1\n\nEND\nEND")).err();
    assert_eq!(
        program,
        Some(ParseError { kind: ParseErrorKind::UnexpectedTokenInStatement, position: 0 })
    );
    let program = parse(tokenize("LET X = 5\n\nPRINT X\nEND")).unwrap();
    assert_eq!(
        program,
        Program {
            lines: vec![
                Line {
                    number: 0,
                    statement: Statement::Let { variable: "X".to_string(), expression: num("5") }
                },
                Line {
                    number: 1,
                    statement: Statement::Print { expressions: vec![var("X")], semicolon: false }
                },
                Line { number: 2, statement: Statement::End },
            ]
        }
    );
}

#[test]
fn let_with_and_without_keyword() {
    let expected = Statement::Let { variable: "X".to_string(), expression: num("5") };
    assert_eq!(statements("LET X = 5"), vec![expected.clone()]);
    assert_eq!(statements("X = 5"), vec![expected]);
}

#[test]
fn call_as_statement_assigns_to_the_function_name() {
    assert_eq!(
        statements("SQR(4)"),
        vec![Statement::Let {
            variable: "SQR".to_string(),
            expression: call("SQR", vec![num("4")])
        }]
    );
}

#[test]
fn print_forms() {
    assert_eq!(
        statements("PRINT"),
        vec![Statement::Print { expressions: vec![], semicolon: false }]
    );
    assert_eq!(
        statements("PRINT 1, X"),
        vec![Statement::Print { expressions: vec![num("1"), var("X")], semicolon: false }]
    );
    assert_eq!(
        statements("PRINT 1 X"),
        vec![Statement::Print { expressions: vec![num("1"), var("X")], semicolon: false }]
    );
    assert_eq!(
        statements("PRINT \"A\";"),
        vec![Statement::Print {
            expressions: vec![Expression::String("A".to_string())],
            semicolon: true
        }]
    );
    assert_eq!(
        statements("PRINT ;"),
        vec![Statement::Print { expressions: vec![], semicolon: true }]
    );
}

#[test]
fn print_ends_at_the_semicolon() {
    assert_eq!(
        failure("PRINT 1; 2"),
        ParseError { kind: ParseErrorKind::UnexpectedTokenInStatement, position: 3 }
    );
}

#[test]
fn input_next_and_end() {
    assert_eq!(
        statements("INPUT N\nNEXT I\nEND"),
        vec![
            Statement::Input { variable: "N".to_string() },
            Statement::Next { variable: "I".to_string() },
            Statement::End
        ]
    );
}

#[test]
fn for_without_step_steps_by_one() {
    assert_eq!(
        statements("FOR I = 1 TO 3"),
        vec![Statement::For {
            loop_data: ForLoop {
                variable: "I".to_string(),
                start: num("1"),
                end: num("3"),
                step: num("1.0"),
            }
        }]
    );
}

#[test]
fn for_with_step() {
    assert_eq!(
        statements("FOR I = N TO 1 STEP 0 - 2"),
        vec![Statement::For {
            loop_data: ForLoop {
                variable: "I".to_string(),
                start: var("N"),
                end: num("1"),
                step: bin(num("0"), Token::Minus, num("2")),
            }
        }]
    );
}

#[test]
fn if_with_one_statement_for_each_branch() {
    assert_eq!(
        statements("IF X > 1 THEN Y = 1 ELSE Y = 2"),
        vec![Statement::If {
            condition: bin(var("X"), Token::GreaterThan, num("1")),
            then_branch: Box::new(Statement::Let {
                variable: "Y".to_string(),
                expression: num("1")
            }),
            else_branch: Some(Box::new(Statement::Let {
                variable: "Y".to_string(),
                expression: num("2")
            })),
        }]
    );
    assert_eq!(
        statements("IF X THEN END"),
        vec![Statement::If {
            condition: var("X"),
            then_branch: Box::new(Statement::End),
            else_branch: None,
        }]
    );
}

#[test]
fn else_belongs_to_the_inner_if() {
    assert_eq!(
        statements("IF A THEN IF B THEN END ELSE X = 1"),
        vec![Statement::If {
            condition: var("A"),
            then_branch: Box::new(Statement::If {
                condition: var("B"),
                then_branch: Box::new(Statement::End),
                else_branch: Some(Box::new(Statement::Let {
                    variable: "X".to_string(),
                    expression: num("1")
                })),
            }),
            else_branch: None,
        }]
    );
}

#[test]
fn print_in_a_then_branch_ends_before_the_else() {
    let print = |text: &str| Statement::Print { expressions: vec![num(text)], semicolon: false };
    assert_eq!(
        statements("IF 1 THEN PRINT 1 ELSE PRINT 2"),
        vec![Statement::If {
            condition: num("1"),
            then_branch: Box::new(print("1")),
            else_branch: Some(Box::new(print("2"))),
        }]
    );
    assert_eq!(
        statements("IF X THEN PRINT ELSE PRINT 1, 2"),
        vec![Statement::If {
            condition: var("X"),
            then_branch: Box::new(Statement::Print { expressions: vec![], semicolon: false }),
            else_branch: Some(Box::new(Statement::Print {
                expressions: vec![num("1"), num("2")],
                semicolon: false
            })),
        }]
    );
    assert_eq!(
        statements("IF X THEN PRINT 1, ELSE END"),
        vec![Statement::If {
            condition: var("X"),
            then_branch: Box::new(print("1")),
            else_branch: Some(Box::new(Statement::End)),
        }]
    );
    assert_eq!(
        statements("IF X THEN PRINT 1; ELSE END"),
        vec![Statement::If {
            condition: var("X"),
            then_branch: Box::new(Statement::Print {
                expressions: vec![num("1")],
                semicolon: true
            }),
            else_branch: Some(Box::new(Statement::End)),
        }]
    );
    let mut parser = Parser::new(tokenize("1 THEN PRINT 1 ELSE PRINT 2"));
    assert_eq!(
        parser.parse_if(),
        Ok(Statement::If {
            condition: num("1"),
            then_branch: Box::new(print("1")),
            else_branch: Some(Box::new(print("2"))),
        })
    );
    assert_eq!(parser.current, 7);
}

#[test]
fn print_outside_an_if_leaves_the_else_where_it_stands() {
    assert_eq!(
        failure("PRINT 1 ELSE PRINT 2"),
        ParseError { kind: ParseErrorKind::UnexpectedTokenInStatement, position: 2 }
    );
}

#[test]
fn precedence_from_comparison_to_power() {
    assert_eq!(
        expression("1 + 2 * 3 ^ 4 < 5"),
        bin(
            bin(
                num("1"),
                Token::Plus,
                bin(num("2"), Token::Multiply, bin(num("3"), Token::Power, num("4")))
            ),
            Token::LessThan,
            num("5")
        )
    );
}

#[test]
fn operators_associate_to_the_left() {
    assert_eq!(
        expression("1 - 2 - 3"),
        bin(bin(num("1"), Token::Minus, num("2")), Token::Minus, num("3"))
    );
    assert_eq!(
        expression("8 / 4 / 2"),
        bin(bin(num("8"), Token::Divide, num("4")), Token::Divide, num("2"))
    );
    assert_eq!(
        expression("2 ^ 3 ^ 2"),
        bin(bin(num("2"), Token::Power, num("3")), Token::Power, num("2"))
    );
    assert_eq!(
        expression("1 < 2 = 1"),
        bin(bin(num("1"), Token::LessThan, num("2")), Token::Equals, num("1"))
    );
}

#[test]
fn every_comparison_operator() {
    for (text, token) in [
        ("<", Token::LessThan),
        (">", Token::GreaterThan),
        ("=", Token::Equals),
        ("<=", Token::LessOrEqual),
        (">=", Token::GreaterOrEqual),
        ("<>", Token::NotEqual),
    ] {
        assert_eq!(expression(&format!("A {} B", text)), bin(var("A"), token, var("B")));
    }
}

#[test]
fn parentheses_group() {
    assert_eq!(
        expression("(1 + 2) * 3"),
        bin(bin(num("1"), Token::Plus, num("2")), Token::Multiply, num("3"))
    );
}

#[test]
fn calls_and_their_arguments() {
    assert_eq!(expression("RND()"), call("RND", vec![]));
    assert_eq!(expression("ABS(X)"), call("ABS", vec![var("X")]));
    assert_eq!(
        expression("F(1, 2 + 3, G(4))"),
        call("F", vec![num("1"), bin(num("2"), Token::Plus, num("3")), call("G", vec![num("4")])])
    );
    assert_eq!(expression("F(1,)"), call("F", vec![num("1")]));
}

#[test]
fn string_in_an_expression() {
    assert_eq!(
        expression("\"a\" + 1"),
        bin(Expression::String("a".to_string()), Token::Plus, num("1"))
    );
}

#[test]
fn unary_minus_is_no_expression() {
    assert_eq!(
        failure("X = -5"),
        ParseError { kind: ParseErrorKind::UnexpectedTokenInExpression, position: 2 }
    );
}

#[test]
fn every_kind_of_failure() {
    let cases = [
        ("LET", ParseErrorKind::ExpectedVariableAfterLet, 1),
        ("LET 5 = 1", ParseErrorKind::ExpectedVariableAfterLet, 1),
        ("LET X 5", ParseErrorKind::ExpectedEqualsInLet, 2),
        ("X 5", ParseErrorKind::ExpectedEquals, 1),
        ("X", ParseErrorKind::ExpectedEquals, 1),
        ("INPUT 5", ParseErrorKind::ExpectedVariableAfterInput, 1),
        ("NEXT", ParseErrorKind::ExpectedVariableAfterNext, 1),
        ("FOR 1", ParseErrorKind::ExpectedVariableAfterFor, 1),
        ("FOR I 1", ParseErrorKind::ExpectedEqualsInFor, 2),
        ("FOR I = 1 3", ParseErrorKind::ExpectedTo, 4),
        ("IF X Y = 1", ParseErrorKind::ExpectedThen, 2),
        ("IF X THEN", ParseErrorKind::UnexpectedTokenInStatement, 3),
        ("X = (1 + 2", ParseErrorKind::ExpectedClosingParenthesis, 6),
        ("X = F(1 2)", ParseErrorKind::ExpectedCommaOrParenthesis, 5),
        ("X = ", ParseErrorKind::UnexpectedTokenInExpression, 2),
        ("X = 1 +", ParseErrorKind::UnexpectedTokenInExpression, 4),
        ("= 1", ParseErrorKind::UnexpectedTokenInStatement, 0),
        ("THEN", ParseErrorKind::UnexpectedTokenInStatement, 0),
        ("END )", ParseErrorKind::UnexpectedTokenInStatement, 1),
    ];
    for (source, kind, position) in cases {
        assert_eq!(failure(source), ParseError { kind, position }, "{}", source);
    }
}

#[test]
fn statements_may_share_a_line() {
    assert_eq!(statements("END END"), vec![Statement::End, Statement::End]);
    assert_eq!(
        statements("X = 1 PRINT X"),
        vec![
            Statement::Let { variable: "X".to_string(), expression: num("1") },
            Statement::Print { expressions: vec![var("X")], semicolon: false }
        ]
    );
}

#[test]
fn input_that_ends_too_early() {
    assert_eq!(
        parse(vec![Token::Identifier("X".to_string()), Token::Equals]),
        Err(ParseError { kind: ParseErrorKind::UnexpectedEnd, position: 2 })
    );
    assert_eq!(
        parse(vec![Token::If, Token::Identifier("X".to_string()), Token::Then]),
        Err(ParseError { kind: ParseErrorKind::UnexpectedEnd, position: 3 })
    );
    assert_eq!(
        parse(vec![Token::Print, Token::LParen]),
        Err(ParseError { kind: ParseErrorKind::UnexpectedEnd, position: 2 })
    );
}

#[test]
fn tokens_without_sentinels_parse_too() {
    assert_eq!(
        parse(vec![Token::Print, Token::Identifier("X".to_string())]),
        Ok(Program {
            lines: vec![Line {
                number: 0,
                statement: Statement::Print { expressions: vec![var("X")], semicolon: false }
            }]
        })
    );
}

#[test]
fn failure_in_words() {
    assert_eq!(failure("IF X Y = 1").message(), "Expected THEN after IF condition at token 2");
    assert_eq!(ParseErrorKind::UnexpectedEnd.message(), "Unexpected end of input");
    assert_eq!(
        ParseErrorKind::ExpectedCommaOrParenthesis.message(),
        "Expected ',' or ')' in function call"
    );
}

#[test]
fn parser_moves_token_by_token() {
    let mut parser = Parser::new(tokenize("X = 1"));
    assert_eq!(parser.current, 0);
    assert_eq!(parser.peek(), Some(&Token::Identifier("X".to_string())));
    assert_eq!(parser.advance(), Some(&Token::Identifier("X".to_string())));
    assert_eq!(parser.current, 1);
    assert!(!parser.match_token(&[Token::Then, Token::Else]));
    assert_eq!(parser.current, 1);
    assert!(parser.match_token(&[Token::Then, Token::Equals]));
    assert_eq!(parser.current, 2);
    assert_eq!(parser.parse_primary(), Ok(num("1")));
    assert_eq!(parser.peek(), Some(&Token::EOL));
    assert_eq!(parser.advance(), Some(&Token::EOL));
    assert_eq!(parser.peek(), Some(&Token::EOF));
    assert_eq!(parser.advance(), Some(&Token::EOF));
    assert_eq!(parser.peek(), None);
    assert_eq!(parser.advance(), Some(&Token::EOF));
    assert_eq!(parser.current, 5);
    assert_eq!(Parser::new(vec![]).advance(), None);
    assert!(!parser.match_token(&[Token::EOF]));
    assert!(!Parser::new(vec![]).match_token(&[]));
}

#[test]
fn parser_levels() {
    let source = "1 < 2 + 3 * 4 ^ 5";
    assert_eq!(Parser::new(tokenize(source)).parse_power(), Ok(num("1")));
    assert_eq!(Parser::new(tokenize(source)).parse_multiplicative(), Ok(num("1")));
    assert_eq!(Parser::new(tokenize(source)).parse_additive(), Ok(num("1")));
    let whole = bin(
        num("1"),
        Token::LessThan,
        bin(
            num("2"),
            Token::Plus,
            bin(num("3"), Token::Multiply, bin(num("4"), Token::Power, num("5"))),
        ),
    );
    assert_eq!(Parser::new(tokenize(source)).parse_comparison(), Ok(whole.clone()));
    assert_eq!(Parser::new(tokenize(source)).parse_expression(), Ok(whole.clone()));
    assert_eq!(Parser::new(tokenize(source)).parse_chain(4), Ok(whole));
    let mut parser = Parser::new(tokenize("2 * 3 + 4"));
    assert_eq!(parser.parse_multiplicative(), Ok(bin(num("2"), Token::Multiply, num("3"))));
    assert_eq!(parser.current, 3);
}

#[test]
fn statement_parsers_begin_after_the_keyword() {
    let mut parser = Parser::new(tokenize("X = 1"));
    assert_eq!(
        parser.parse_let(),
        Ok(Statement::Let { variable: "X".to_string(), expression: num("1") })
    );
    let mut parser = Parser::new(tokenize("1, 2;"));
    assert_eq!(
        parser.parse_print(),
        Ok(Statement::Print { expressions: vec![num("1"), num("2")], semicolon: true })
    );
    let mut parser = Parser::new(tokenize("X THEN END"));
    assert_eq!(
        parser.parse_if(),
        Ok(Statement::If {
            condition: var("X"),
            then_branch: Box::new(Statement::End),
            else_branch: None
        })
    );
    let mut parser = Parser::new(tokenize("I = 1 TO 2 STEP 3"));
    assert_eq!(
        parser.parse_for(),
        Ok(Statement::For {
            loop_data: ForLoop {
                variable: "I".to_string(),
                start: num("1"),
                end: num("2"),
                step: num("3")
            }
        })
    );
    let mut parser = Parser::new(tokenize("1, 2)"));
    assert_eq!(parser.parse_arguments(), Ok(vec![num("1"), num("2")]));
    let mut parser = Parser::new(tokenize("END\nEND"));
    assert_eq!(parser.parse_statement(), Ok(Statement::End));
    assert_eq!(parser.current, 1);
    assert_eq!(parser.parse_program().map(|p| p.lines.len()), Ok(1));
}

#[test]
fn syntax_trees_copy() {
    let program = parse(tokenize("FOR I = 1 TO F(2, \"s\")\nIF I THEN PRINT I;\nNEXT I")).unwrap();
    assert_eq!(program.clone(), program);
}
