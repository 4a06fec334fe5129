use minibasic::lexer::tokenize;
use minibasic::token::Token;

fn number(text: &str) -> Token {
    Token::Number(text.to_string())
}

fn identifier(text: &str) -> Token {
    Token::Identifier(text.to_string())
}

#[test]
fn empty_input_has_both_sentinels() {
    assert_eq!(tokenize(""), vec![Token::EOL, Token::EOF]);
}

#[test]
fn blank_input_has_both_sentinels() {
    assert_eq!(tokenize(" \t\r "), vec![Token::EOL, Token::EOF]);
}

#[test]
fn end_of_line_is_added_when_missing() {
    assert_eq!(tokenize("END"), vec![Token::End, Token::EOL, Token::EOF]);
}

#[test]
fn end_of_line_is_not_doubled() {
    assert_eq!(tokenize("END\n"), vec![Token::End, Token::EOL, Token::EOF]);
}

#[test]
fn newline_alone_is_one_end_of_line() {
    assert_eq!(tokenize("\n"), vec![Token::EOL, Token::EOF]);
}

#[test]
fn let_statement_tokens() {
    assert_eq!(
        tokenize("LET X = 5"),
        vec![Token::Let, identifier("X"), Token::Equals, number("5"), Token::EOL, Token::EOF]
    );
}

#[test]
fn keywords_are_case_insensitive() {
    assert_eq!(
        tokenize("let Print iF then ELSE for To step next End input"),
        vec![
            Token::Let,
            Token::Print,
            Token::If,
            Token::Then,
            Token::Else,
            Token::For,
            Token::To,
            Token::Step,
            Token::Next,
            Token::End,
            Token::Input,
            Token::EOL,
            Token::EOF
        ]
    );
}

#[test]
fn identifiers_are_upper_cased() {
    assert_eq!(tokenize("total_1"), vec![identifier("TOTAL_1"), Token::EOL, Token::EOF]);
    assert_eq!(tokenize("_x9"), vec![identifier("_X9"), Token::EOL, Token::EOF]);
}

#[test]
fn unused_keywords_are_identifiers() {
    assert_eq!(
        tokenize("GOTO REM ABS"),
        vec![identifier("GOTO"), identifier("REM"), identifier("ABS"), Token::EOL, Token::EOF]
    );
}

#[test]
fn identifier_goes_on_over_letters_beyond_ascii() {
    assert_eq!(tokenize("x\u{e9}1 y"), vec![
        identifier("X\u{e9}1"),
        identifier("Y"),
        Token::EOL,
        Token::EOF
    ]);
}

#[test]
fn letter_beyond_ascii_begins_no_identifier() {
    assert_eq!(tokenize("\u{e9}"), vec![Token::EOL, Token::EOF]);
}

#[test]
fn numbers_take_digits_and_one_point() {
    assert_eq!(tokenize("3.14"), vec![number("3.14"), Token::EOL, Token::EOF]);
    assert_eq!(tokenize("5."), vec![number("5."), Token::EOL, Token::EOF]);
    assert_eq!(tokenize("007"), vec![number("007"), Token::EOL, Token::EOF]);
}

#[test]
fn number_with_two_points_leaves_no_token() {
    assert_eq!(tokenize("1.2.3"), vec![Token::EOL, Token::EOF]);
    assert_eq!(tokenize("X = 1..2"), vec![
        identifier("X"),
        Token::Equals,
        Token::EOL,
        Token::EOF
    ]);
}

#[test]
fn leading_point_is_skipped() {
    assert_eq!(tokenize(".5"), vec![number("5"), Token::EOL, Token::EOF]);
}

#[test]
fn minus_is_no_part_of_a_number() {
    assert_eq!(tokenize("-5"), vec![Token::Minus, number("5"), Token::EOL, Token::EOF]);
}

#[test]
fn number_has_no_exponent() {
    assert_eq!(tokenize("1e5"), vec![number("1"), identifier("E5"), Token::EOL, Token::EOF]);
}

#[test]
fn string_literal() {
    assert_eq!(
        tokenize("PRINT \"Hi there\""),
        vec![Token::Print, Token::String("Hi there".to_string()), Token::EOL, Token::EOF]
    );
}

#[test]
fn string_literal_has_no_escapes() {
    assert_eq!(
        tokenize("\"a\\\"b"),
        vec![Token::String("a\\".to_string()), identifier("B"), Token::EOL, Token::EOF]
    );
}

#[test]
fn unterminated_string_ends_with_the_input() {
    assert_eq!(
        tokenize("\"abc\ndef"),
        vec![Token::String("abc\ndef".to_string()), Token::EOL, Token::EOF]
    );
}

#[test]
fn empty_string_literal() {
    assert_eq!(tokenize("\"\""), vec![Token::String(String::new()), Token::EOL, Token::EOF]);
    assert_eq!(tokenize("\""), vec![Token::String(String::new()), Token::EOL, Token::EOF]);
}

#[test]
fn single_character_operators() {
    assert_eq!(
        tokenize("+-*/^=(),;:"),
        vec![
            Token::Plus,
            Token::Minus,
            Token::Multiply,
            Token::Divide,
            Token::Power,
            Token::Equals,
            Token::LParen,
            Token::RParen,
            Token::Comma,
            Token::Semicolon,
            Token::Colon,
            Token::EOL,
            Token::EOF
        ]
    );
}

#[test]
fn two_character_operators() {
    assert_eq!(
        tokenize("<= >= <> < > ="),
        vec![
            Token::LessOrEqual,
            Token::GreaterOrEqual,
            Token::NotEqual,
            Token::LessThan,
            Token::GreaterThan,
            Token::Equals,
            Token::EOL,
            Token::EOF
        ]
    );
}

#[test]
fn operator_at_the_end_of_input() {
    assert_eq!(tokenize("<"), vec![Token::LessThan, Token::EOL, Token::EOF]);
    assert_eq!(tokenize(">"), vec![Token::GreaterThan, Token::EOL, Token::EOF]);
}

#[test]
fn equals_then_less_is_two_tokens() {
    assert_eq!(tokenize("=<"), vec![Token::Equals, Token::LessThan, Token::EOL, Token::EOF]);
    assert_eq!(tokenize("><"), vec![
        Token::GreaterThan,
        Token::LessThan,
        Token::EOL,
        Token::EOF
    ]);
}

#[test]
fn unknown_characters_are_skipped() {
    assert_eq!(tokenize("X @ # $ ! ? Y"), vec![
        identifier("X"),
        identifier("Y"),
        Token::EOL,
        Token::EOF
    ]);
}

#[test]
fn lines_are_separated() {
    assert_eq!(
        tokenize("PRINT 1\r\nEND\n"),
        vec![Token::Print, number("1"), Token::EOL, Token::End, Token::EOL, Token::EOF]
    );
}

#[test]
fn token_copy_and_comparison() {
    let t = identifier("X");
    assert_eq!(t.clone(), t);
    assert!(t.same(&identifier("X")));
    assert!(!t.same(&identifier("Y")));
    assert!(!t.same(&number("X")));
    assert!(Token::Plus.same(&Token::Plus));
    assert!(!Token::Plus.same(&Token::Minus));
    assert!(Token::LessThan.is_comparison());
    assert!(!Token::Plus.is_comparison());
    assert!(Token::Power.is_arithmetic());
    assert!(!Token::Equals.is_arithmetic());
}
