//! The parser: recursive descent from tokens to a program.
//!
//! Binary operators bind in four levels, comparison lowest and power highest,
//! and every level associates to the left. A malformed construct ends the
//! parse with an error that names the position of the token at fault.

use vstd::prelude::*;
use crate::text::{decimal, decimal_text};
use crate::token::{Token, TokenView, tokens_view};
use crate::ast::{
    Expression, ExpressionView, ForLoop, ForLoopView, Statement, StatementView, Line, LineView,
    Program, expressions_view, lines_view, lemma_call_view,
};

verus! {

/// What was wrong with the input.
#[derive(Clone, Copy, Debug, PartialEq, Eq, Structural)]
pub enum ParseErrorKind {
    /// The input ended where a statement or an expression had to follow.
    UnexpectedEnd,
    /// The token cannot begin a statement.
    UnexpectedTokenInStatement,
    /// The token cannot begin an expression.
    UnexpectedTokenInExpression,
    ExpectedVariableAfterLet,
    ExpectedEqualsInLet,
    /// An identifier begins a statement and neither `=` nor `(` follows.
    ExpectedEquals,
    ExpectedVariableAfterInput,
    ExpectedVariableAfterNext,
    ExpectedVariableAfterFor,
    ExpectedEqualsInFor,
    ExpectedTo,
    ExpectedThen,
    ExpectedClosingParenthesis,
    /// An argument of a call is followed by neither `,` nor `)`.
    ExpectedCommaOrParenthesis,
    /// The program has more lines than a line index can count.
    TooManyLines,
}

/// What a kind of failure says in words.
pub open spec fn kind_message(kind: ParseErrorKind) -> Seq<char> {
    match kind {
        ParseErrorKind::UnexpectedEnd => "Unexpected end of input"@,
        ParseErrorKind::UnexpectedTokenInStatement => "Unexpected token in statement"@,
        ParseErrorKind::UnexpectedTokenInExpression => "Unexpected token in expression"@,
        ParseErrorKind::ExpectedVariableAfterLet => "Expected variable name after LET"@,
        ParseErrorKind::ExpectedEqualsInLet => "Expected '=' after variable name in LET"@,
        ParseErrorKind::ExpectedEquals => "Expected = after variable name"@,
        ParseErrorKind::ExpectedVariableAfterInput => "Expected variable name after INPUT"@,
        ParseErrorKind::ExpectedVariableAfterNext => "Expected variable name after NEXT"@,
        ParseErrorKind::ExpectedVariableAfterFor => "Expected variable name after FOR"@,
        ParseErrorKind::ExpectedEqualsInFor => "Expected '=' after variable name in FOR statement"@,
        ParseErrorKind::ExpectedTo => "Expected TO in FOR statement"@,
        ParseErrorKind::ExpectedThen => "Expected THEN after IF condition"@,
        ParseErrorKind::ExpectedClosingParenthesis => "Expected closing parenthesis"@,
        ParseErrorKind::ExpectedCommaOrParenthesis => "Expected ',' or ')' in function call"@,
        ParseErrorKind::TooManyLines => "Too many lines"@,
    }
}

impl ParseErrorKind {
    /// The kind of failure in words.
    pub fn message(self) -> (r: &'static str)
        ensures
            r@ == kind_message(self),
    {
        match self {
            ParseErrorKind::UnexpectedEnd => "Unexpected end of input",
            ParseErrorKind::UnexpectedTokenInStatement => "Unexpected token in statement",
            ParseErrorKind::UnexpectedTokenInExpression => "Unexpected token in expression",
            ParseErrorKind::ExpectedVariableAfterLet => "Expected variable name after LET",
            ParseErrorKind::ExpectedEqualsInLet => "Expected '=' after variable name in LET",
            ParseErrorKind::ExpectedEquals => "Expected = after variable name",
            ParseErrorKind::ExpectedVariableAfterInput => "Expected variable name after INPUT",
            ParseErrorKind::ExpectedVariableAfterNext => "Expected variable name after NEXT",
            ParseErrorKind::ExpectedVariableAfterFor => "Expected variable name after FOR",
            ParseErrorKind::ExpectedEqualsInFor => "Expected '=' after variable name in FOR statement",
            ParseErrorKind::ExpectedTo => "Expected TO in FOR statement",
            ParseErrorKind::ExpectedThen => "Expected THEN after IF condition",
            ParseErrorKind::ExpectedClosingParenthesis => "Expected closing parenthesis",
            ParseErrorKind::ExpectedCommaOrParenthesis => "Expected ',' or ')' in function call",
            ParseErrorKind::TooManyLines => "Too many lines",
        }
    }
}

/// A parse failure: what was wrong, and the index of the token at which it
/// was found (the number of tokens, if the input ended too early).
#[derive(Clone, Copy, Debug, PartialEq, Eq, Structural)]
pub struct ParseError {
    pub kind: ParseErrorKind,
    pub position: usize,
}

impl ParseError {
    /// What the failure says in words: what was wrong, and at which token.
    pub open spec fn text(self) -> Seq<char> {
        kind_message(self.kind) + " at token "@ + decimal(self.position as nat)
    }

    /// The failure in words.
    pub fn message(&self) -> (r: String)
        ensures
            r@ == self.text(),
    {
        let mut r = self.kind.message().to_owned();
        r.append(" at token ");
        r.append(decimal_text(self.position).as_str());
        r
    }
}

/// The result of parsing from some position: a value and the position after
/// it, or a failure at a position.
pub enum Parsed<T> {
    Done(T, int),
    Failed(ParseErrorKind, int),
}

/// The largest number of lines that a program can have.
pub const MAX_LINES: u32 = 0xFFFF_FFFF;

/// The token at a position, if there is one.
pub open spec fn token_at(tokens: Seq<TokenView>, pos: int) -> Option<TokenView> {
    if 0 <= pos < tokens.len() {
        Some(tokens[pos])
    } else {
        None
    }
}

/// The binding level of a binary operator, 0 for any other token.
pub open spec fn level_of(t: TokenView) -> nat {
    if t.is_comparison() {
        4
    } else if t is Plus || t is Minus {
        3
    } else if t is Multiply || t is Divide {
        2
    } else if t is Power {
        1
    } else {
        0
    }
}

/// A result of a parse that began at `from` in an input of `limit` tokens,
/// accepted if it ends after `from` and within the input. Every parse that
/// succeeds does ([`lemma_expression_advances`], [`lemma_statement_advances`]),
/// so this changes no result; it is what makes the grammar's recursion
/// well-founded.
pub open spec fn forward<T>(from: int, limit: int, r: Parsed<T>) -> Parsed<T> {
    match r {
        Parsed::Done(v, p) => if from < p <= limit {
            r
        } else {
            Parsed::Failed(ParseErrorKind::UnexpectedEnd, from)
        },
        Parsed::Failed(k, p) => r,
    }
}

/// A primary expression: a literal, a variable, a call, or an expression in
/// parentheses.
pub open spec fn primary(tokens: Seq<TokenView>, pos: int) -> Parsed<ExpressionView>
    decreases tokens.len() - pos, 0nat,
{
    match token_at(tokens, pos) {
        None => Parsed::Failed(ParseErrorKind::UnexpectedEnd, pos),
        Some(TokenView::Number(s)) => Parsed::Done(ExpressionView::Number(s), pos + 1),
        Some(TokenView::String(s)) => Parsed::Done(ExpressionView::String(s), pos + 1),
        Some(TokenView::Identifier(name)) => if token_at(tokens, pos + 1) == Some(
            TokenView::LParen,
        ) {
            match arguments(tokens, pos + 2, Seq::empty()) {
                Parsed::Done(args, p) => Parsed::Done(
                    ExpressionView::FunctionCall { name, arguments: args },
                    p,
                ),
                Parsed::Failed(k, p) => Parsed::Failed(k, p),
            }
        } else {
            Parsed::Done(ExpressionView::Variable(name), pos + 1)
        },
        Some(TokenView::LParen) => match chain(tokens, pos + 1, 4) {
            Parsed::Done(e, p) => if token_at(tokens, p) == Some(TokenView::RParen) {
                Parsed::Done(e, p + 1)
            } else {
                Parsed::Failed(ParseErrorKind::ExpectedClosingParenthesis, p)
            },
            Parsed::Failed(k, p) => Parsed::Failed(k, p),
        },
        Some(_) => Parsed::Failed(ParseErrorKind::UnexpectedTokenInExpression, pos),
    }
}

/// The arguments of a call from `pos`, after those in `acc`, up to and
/// including the closing parenthesis.
pub open spec fn arguments(tokens: Seq<TokenView>, pos: int, acc: Seq<ExpressionView>) -> Parsed<
    Seq<ExpressionView>,
>
    decreases tokens.len() - pos, 6nat,
{
    if token_at(tokens, pos) == Some(TokenView::RParen) {
        Parsed::Done(acc, pos + 1)
    } else {
        match forward(pos, tokens.len() as int, chain(tokens, pos, 4)) {
            Parsed::Done(e, p) => if token_at(tokens, p) == Some(TokenView::Comma) {
                arguments(tokens, p + 1, acc.push(e))
            } else if token_at(tokens, p) == Some(TokenView::RParen) {
                Parsed::Done(acc.push(e), p + 1)
            } else {
                Parsed::Failed(ParseErrorKind::ExpectedCommaOrParenthesis, p)
            },
            Parsed::Failed(k, p) => Parsed::Failed(k, p),
        }
    }
}

/// An expression of binding level `level`: an operand of the next higher
/// level, then any number of operators of this level, each with its operand.
/// Level 0 is a primary expression.
pub open spec fn chain(tokens: Seq<TokenView>, pos: int, level: nat) -> Parsed<ExpressionView>
    decreases tokens.len() - pos, level + 1,
{
    if level == 0 {
        primary(tokens, pos)
    } else {
        match forward(pos, tokens.len() as int, chain(tokens, pos, (level - 1) as nat)) {
            Parsed::Done(left, p) => chain_rest(tokens, p, left, level),
            Parsed::Failed(k, p) => Parsed::Failed(k, p),
        }
    }
}

/// The operators of level `level` from `pos` on, applied one after the other
/// to what stands on their left.
pub open spec fn chain_rest(
    tokens: Seq<TokenView>,
    pos: int,
    left: ExpressionView,
    level: nat,
) -> Parsed<ExpressionView>
    decreases tokens.len() - pos, 0nat,
{
    match token_at(tokens, pos) {
        Some(operator) => if level > 0 && level_of(operator) == level {
            match forward(pos + 1, tokens.len() as int, chain(tokens, pos + 1, (level - 1) as nat)) {
                Parsed::Done(right, p) => chain_rest(
                    tokens,
                    p,
                    ExpressionView::Binary {
                        left: Box::new(left),
                        operator,
                        right: Box::new(right),
                    },
                    level,
                ),
                Parsed::Failed(k, p) => Parsed::Failed(k, p),
            }
        } else {
            Parsed::Done(left, pos)
        },
        None => Parsed::Done(left, pos),
    }
}

/// An expression.
pub open spec fn expression(tokens: Seq<TokenView>, pos: int) -> Parsed<ExpressionView> {
    chain(tokens, pos, 4)
}

/// An expression that parses ends after its beginning and within the input.
pub proof fn lemma_chain_advances(tokens: Seq<TokenView>, pos: int, level: nat)
    ensures
        chain(tokens, pos, level) matches Parsed::Done(_, p) ==> pos < p <= tokens.len(),
        forward(pos, tokens.len() as int, chain(tokens, pos, level)) == chain(tokens, pos, level),
    decreases tokens.len() - pos, level + 1,
{
    if level == 0 {
        lemma_primary_advances(tokens, pos);
    } else {
        lemma_chain_advances(tokens, pos, (level - 1) as nat);
        match chain(tokens, pos, (level - 1) as nat) {
            Parsed::Done(left, p) => {
                lemma_chain_rest_advances(tokens, p, left, level);
            },
            Parsed::Failed(k, p) => {},
        }
    }
}

/// What follows an operand ends at or after its beginning and within the input.
pub proof fn lemma_chain_rest_advances(
    tokens: Seq<TokenView>,
    pos: int,
    left: ExpressionView,
    level: nat,
)
    requires
        pos <= tokens.len(),
    ensures
        chain_rest(tokens, pos, left, level) matches Parsed::Done(_, p) ==> pos <= p
            <= tokens.len(),
    decreases tokens.len() - pos, 0nat,
{
    match token_at(tokens, pos) {
        Some(operator) => {
            if level > 0 && level_of(operator) == level {
                lemma_chain_advances(tokens, pos + 1, (level - 1) as nat);
                match chain(tokens, pos + 1, (level - 1) as nat) {
                    Parsed::Done(right, p) => {
                        lemma_chain_rest_advances(
                            tokens,
                            p,
                            ExpressionView::Binary {
                                left: Box::new(left),
                                operator,
                                right: Box::new(right),
                            },
                            level,
                        );
                    },
                    Parsed::Failed(k, p) => {},
                }
            }
        },
        None => {},
    }
}

/// A primary expression that parses ends after its beginning and within the input.
pub proof fn lemma_primary_advances(tokens: Seq<TokenView>, pos: int)
    ensures
        primary(tokens, pos) matches Parsed::Done(_, p) ==> pos < p <= tokens.len(),
    decreases tokens.len() - pos, 0nat,
{
    match token_at(tokens, pos) {
        Some(TokenView::Identifier(name)) => {
            if token_at(tokens, pos + 1) == Some(TokenView::LParen) {
                lemma_arguments_advance(tokens, pos + 2, Seq::empty());
            }
        },
        Some(TokenView::LParen) => {
            lemma_chain_advances(tokens, pos + 1, 4);
        },
        _ => {},
    }
}

/// An argument list that parses ends after its beginning and within the input.
pub proof fn lemma_arguments_advance(tokens: Seq<TokenView>, pos: int, acc: Seq<ExpressionView>)
    ensures
        arguments(tokens, pos, acc) matches Parsed::Done(_, p) ==> pos < p <= tokens.len(),
    decreases tokens.len() - pos, 6nat,
{
    if token_at(tokens, pos) == Some(TokenView::RParen) {
    } else {
        lemma_chain_advances(tokens, pos, 4);
        match chain(tokens, pos, 4) {
            Parsed::Done(e, p) => {
                if token_at(tokens, p) == Some(TokenView::Comma) {
                    lemma_arguments_advance(tokens, p + 1, acc.push(e));
                }
            },
            Parsed::Failed(k, p) => {},
        }
    }
}

/// An expression that parses consumes at least one token and stays within
/// the input.
pub proof fn lemma_expression_advances(tokens: Seq<TokenView>, pos: int)
    ensures
        expression(tokens, pos) matches Parsed::Done(_, p) ==> pos < p <= tokens.len(),
{
    lemma_chain_advances(tokens, pos, 4);
}

/// A `LET` statement, from the position after the keyword.
pub open spec fn let_statement(tokens: Seq<TokenView>, pos: int) -> Parsed<StatementView> {
    match token_at(tokens, pos) {
        Some(TokenView::Identifier(name)) => if token_at(tokens, pos + 1) == Some(
            TokenView::Equals,
        ) {
            match expression(tokens, pos + 2) {
                Parsed::Done(e, p) => Parsed::Done(
                    StatementView::Let { variable: name, expression: e },
                    p,
                ),
                Parsed::Failed(k, p) => Parsed::Failed(k, p),
            }
        } else {
            Parsed::Failed(ParseErrorKind::ExpectedEqualsInLet, pos + 1)
        },
        _ => Parsed::Failed(ParseErrorKind::ExpectedVariableAfterLet, pos),
    }
}

/// The expressions of a `PRINT` statement from `pos`, after those in `acc`.
/// The list ends before the end of the line or of the input, before an
/// `ELSE`, which belongs to the `IF` around the statement, or after a
/// semicolon; a comma after an expression is passed over.
pub open spec fn print_items(tokens: Seq<TokenView>, pos: int, acc: Seq<ExpressionView>) -> Parsed<
    StatementView,
>
    decreases tokens.len() - pos,
{
    match token_at(tokens, pos) {
        None => Parsed::Done(StatementView::Print { expressions: acc, semicolon: false }, pos),
        Some(TokenView::EOL) => Parsed::Done(
            StatementView::Print { expressions: acc, semicolon: false },
            pos,
        ),
        Some(TokenView::Else) => Parsed::Done(
            StatementView::Print { expressions: acc, semicolon: false },
            pos,
        ),
        Some(TokenView::Semicolon) => Parsed::Done(
            StatementView::Print { expressions: acc, semicolon: true },
            pos + 1,
        ),
        Some(_) => match expression(tokens, pos) {
            Parsed::Done(e, p) => {
                proof {
                    lemma_expression_advances(tokens, pos);
                }
                print_items(
                    tokens,
                    if token_at(tokens, p) == Some(TokenView::Comma) {
                        p + 1
                    } else {
                        p
                    },
                    acc.push(e),
                )
            },
            Parsed::Failed(k, p) => Parsed::Failed(k, p),
        },
    }
}

/// A `FOR` statement, from the position after the keyword. Without `STEP`
/// the step is the literal `1.0`.
pub open spec fn for_statement(tokens: Seq<TokenView>, pos: int) -> Parsed<StatementView> {
    match token_at(tokens, pos) {
        Some(TokenView::Identifier(name)) => if token_at(tokens, pos + 1) == Some(
            TokenView::Equals,
        ) {
            match expression(tokens, pos + 2) {
                Parsed::Done(start, p) => if token_at(tokens, p) == Some(TokenView::To) {
                    match expression(tokens, p + 1) {
                        Parsed::Done(end, q) => if token_at(tokens, q) == Some(TokenView::Step) {
                            match expression(tokens, q + 1) {
                                Parsed::Done(step, r) => Parsed::Done(
                                    StatementView::For {
                                        loop_data: ForLoopView { variable: name, start, end, step },
                                    },
                                    r,
                                ),
                                Parsed::Failed(k, r) => Parsed::Failed(k, r),
                            }
                        } else {
                            Parsed::Done(
                                StatementView::For {
                                    loop_data: ForLoopView {
                                        variable: name,
                                        start,
                                        end,
                                        step: ExpressionView::Number("1.0"@),
                                    },
                                },
                                q,
                            )
                        },
                        Parsed::Failed(k, q) => Parsed::Failed(k, q),
                    }
                } else {
                    Parsed::Failed(ParseErrorKind::ExpectedTo, p)
                },
                Parsed::Failed(k, p) => Parsed::Failed(k, p),
            }
        } else {
            Parsed::Failed(ParseErrorKind::ExpectedEqualsInFor, pos + 1)
        },
        _ => Parsed::Failed(ParseErrorKind::ExpectedVariableAfterFor, pos),
    }
}

/// An `IF` statement, from the position after the keyword: a condition,
/// `THEN`, one statement, and optionally `ELSE` and one statement.
pub open spec fn if_statement(tokens: Seq<TokenView>, pos: int) -> Parsed<StatementView>
    decreases tokens.len() - pos, 0nat,
{
    match expression(tokens, pos) {
        Parsed::Done(condition, p) => {
            proof {
                lemma_expression_advances(tokens, pos);
            }
            if token_at(tokens, p) == Some(TokenView::Then) {
                match forward(p + 1, tokens.len() as int, statement(tokens, p + 1)) {
                    Parsed::Done(then_branch, q) => if token_at(tokens, q) == Some(
                        TokenView::Else,
                    ) {
                        match statement(tokens, q + 1) {
                            Parsed::Done(else_branch, r) => Parsed::Done(
                                StatementView::If {
                                    condition,
                                    then_branch: Box::new(then_branch),
                                    else_branch: Some(Box::new(else_branch)),
                                },
                                r,
                            ),
                            Parsed::Failed(k, r) => Parsed::Failed(k, r),
                        }
                    } else {
                        Parsed::Done(
                            StatementView::If {
                                condition,
                                then_branch: Box::new(then_branch),
                                else_branch: None,
                            },
                            q,
                        )
                    },
                    Parsed::Failed(k, q) => Parsed::Failed(k, q),
                }
            } else {
                Parsed::Failed(ParseErrorKind::ExpectedThen, p)
            }
        },
        Parsed::Failed(k, p) => Parsed::Failed(k, p),
    }
}

/// A statement. An identifier that begins a statement is assigned to: what
/// follows `=`, or, if `(` follows, the call of the function of that name.
pub open spec fn statement(tokens: Seq<TokenView>, pos: int) -> Parsed<StatementView>
    decreases tokens.len() - pos, 1nat,
{
    match token_at(tokens, pos) {
        None => Parsed::Failed(ParseErrorKind::UnexpectedEnd, pos),
        Some(TokenView::Let) => let_statement(tokens, pos + 1),
        Some(TokenView::Print) => print_items(tokens, pos + 1, Seq::empty()),
        Some(TokenView::If) => if_statement(tokens, pos + 1),
        Some(TokenView::For) => for_statement(tokens, pos + 1),
        Some(TokenView::Input) => match token_at(tokens, pos + 1) {
            Some(TokenView::Identifier(name)) => Parsed::Done(
                StatementView::Input { variable: name },
                pos + 2,
            ),
            _ => Parsed::Failed(ParseErrorKind::ExpectedVariableAfterInput, pos + 1),
        },
        Some(TokenView::Next) => match token_at(tokens, pos + 1) {
            Some(TokenView::Identifier(name)) => Parsed::Done(
                StatementView::Next { variable: name },
                pos + 2,
            ),
            _ => Parsed::Failed(ParseErrorKind::ExpectedVariableAfterNext, pos + 1),
        },
        Some(TokenView::End) => Parsed::Done(StatementView::End, pos + 1),
        Some(TokenView::Identifier(name)) => if token_at(tokens, pos + 1) == Some(
            TokenView::LParen,
        ) {
            match arguments(tokens, pos + 2, Seq::empty()) {
                Parsed::Done(args, p) => Parsed::Done(
                    StatementView::Let {
                        variable: name,
                        expression: ExpressionView::FunctionCall { name, arguments: args },
                    },
                    p,
                ),
                Parsed::Failed(k, p) => Parsed::Failed(k, p),
            }
        } else if token_at(tokens, pos + 1) == Some(TokenView::Equals) {
            match expression(tokens, pos + 2) {
                Parsed::Done(e, p) => Parsed::Done(
                    StatementView::Let { variable: name, expression: e },
                    p,
                ),
                Parsed::Failed(k, p) => Parsed::Failed(k, p),
            }
        } else {
            Parsed::Failed(ParseErrorKind::ExpectedEquals, pos + 1)
        },
        Some(_) => Parsed::Failed(ParseErrorKind::UnexpectedTokenInStatement, pos),
    }
}

/// The lines of a program from `pos`, after those in `acc`. Ends of lines
/// between statements are passed over, the end of input ends the program,
/// and each statement takes the next index.
pub open spec fn program_lines(tokens: Seq<TokenView>, pos: int, acc: Seq<LineView>) -> Parsed<
    Seq<LineView>,
>
    decreases tokens.len() - pos,
{
    match token_at(tokens, pos) {
        None => Parsed::Done(acc, pos),
        Some(TokenView::EOF) => Parsed::Done(acc, pos),
        Some(TokenView::EOL) => program_lines(tokens, pos + 1, acc),
        Some(_) => match statement(tokens, pos) {
            Parsed::Done(s, p) => {
                proof {
                    lemma_statement_advances(tokens, pos);
                }
                if acc.len() >= MAX_LINES {
                    Parsed::Failed(ParseErrorKind::TooManyLines, p)
                } else {
                    program_lines(
                        tokens,
                        if token_at(tokens, p) == Some(TokenView::EOL) {
                            p + 1
                        } else {
                            p
                        },
                        acc.push(LineView { number: acc.len() as u32, statement: s }),
                    )
                }
            },
            Parsed::Failed(k, p) => Parsed::Failed(k, p),
        },
    }
}

/// Whether every line has its position in the sequence for number.
pub open spec fn numbered(lines: Seq<LineView>) -> bool {
    forall|i: int| 0 <= i < lines.len() ==> (#[trigger] lines[i]).number == i
}

/// The lines of a program are numbered from 0 in the order in which they
/// were parsed.
pub proof fn lemma_lines_numbered(tokens: Seq<TokenView>, pos: int, acc: Seq<LineView>)
    requires
        numbered(acc),
    ensures
        program_lines(tokens, pos, acc) matches Parsed::Done(lines, _) ==> numbered(lines),
    decreases tokens.len() - pos,
{
    match token_at(tokens, pos) {
        None => {},
        Some(TokenView::EOF) => {},
        Some(TokenView::EOL) => {
            lemma_lines_numbered(tokens, pos + 1, acc);
        },
        Some(_) => {
            lemma_statement_advances(tokens, pos);
            match statement(tokens, pos) {
                Parsed::Done(s, p) => {
                    if acc.len() < MAX_LINES {
                        lemma_lines_numbered(
                            tokens,
                            if token_at(tokens, p) == Some(TokenView::EOL) {
                                p + 1
                            } else {
                                p
                            },
                            acc.push(LineView { number: acc.len() as u32, statement: s }),
                        );
                    }
                },
                Parsed::Failed(k, p) => {},
            }
        },
    }
}

/// The list of a `PRINT` statement ends at or after its beginning and within
/// the input.
pub proof fn lemma_print_items_advance(tokens: Seq<TokenView>, pos: int, acc: Seq<ExpressionView>)
    requires
        pos <= tokens.len(),
    ensures
        print_items(tokens, pos, acc) matches Parsed::Done(_, p) ==> pos <= p <= tokens.len(),
    decreases tokens.len() - pos,
{
    match token_at(tokens, pos) {
        None => {},
        Some(TokenView::EOL) => {},
        Some(TokenView::Else) => {},
        Some(TokenView::Semicolon) => {},
        Some(_) => {
            lemma_expression_advances(tokens, pos);
            match expression(tokens, pos) {
                Parsed::Done(e, p) => {
                    lemma_print_items_advance(
                        tokens,
                        if token_at(tokens, p) == Some(TokenView::Comma) {
                            p + 1
                        } else {
                            p
                        },
                        acc.push(e),
                    );
                },
                Parsed::Failed(k, p) => {},
            }
        },
    }
}

/// A statement that parses consumes at least one token and stays within the
/// input.
pub proof fn lemma_statement_advances(tokens: Seq<TokenView>, pos: int)
    ensures
        statement(tokens, pos) matches Parsed::Done(_, p) ==> pos < p <= tokens.len(),
        forward(pos, tokens.len() as int, statement(tokens, pos)) == statement(tokens, pos),
    decreases tokens.len() - pos,
{
    match token_at(tokens, pos) {
        Some(TokenView::Let) => {
            lemma_expression_advances(tokens, pos + 3);
        },
        Some(TokenView::Print) => {
            lemma_print_items_advance(tokens, pos + 1, Seq::empty());
        },
        Some(TokenView::If) => {
            lemma_expression_advances(tokens, pos + 1);
            match expression(tokens, pos + 1) {
                Parsed::Done(condition, p) => {
                    if token_at(tokens, p) == Some(TokenView::Then) {
                        lemma_statement_advances(tokens, p + 1);
                        match statement(tokens, p + 1) {
                            Parsed::Done(then_branch, q) => {
                                if token_at(tokens, q) == Some(TokenView::Else) {
                                    lemma_statement_advances(tokens, q + 1);
                                }
                            },
                            Parsed::Failed(k, q) => {},
                        }
                    }
                },
                Parsed::Failed(k, p) => {},
            }
        },
        Some(TokenView::For) => {
            lemma_expression_advances(tokens, pos + 3);
            match expression(tokens, pos + 3) {
                Parsed::Done(start, p) => {
                    lemma_expression_advances(tokens, p + 1);
                    match expression(tokens, p + 1) {
                        Parsed::Done(end, q) => {
                            lemma_expression_advances(tokens, q + 1);
                        },
                        Parsed::Failed(k, q) => {},
                    }
                },
                Parsed::Failed(k, p) => {},
            }
        },
        Some(TokenView::Identifier(name)) => {
            lemma_arguments_advance(tokens, pos + 2, Seq::empty());
            lemma_expression_advances(tokens, pos + 2);
        },
        _ => {},
    }
}

/// What an expression parser returned, and where it stopped, in the terms of
/// the grammar.
pub open spec fn expression_result(r: Result<Expression, ParseError>, current: usize) -> Parsed<
    ExpressionView,
> {
    match r {
        Ok(e) => Parsed::Done(e@, current as int),
        Err(e) => Parsed::Failed(e.kind, e.position as int),
    }
}

/// What an argument-list parser returned, and where it stopped, in the terms
/// of the grammar.
pub open spec fn arguments_result(r: Result<Vec<Expression>, ParseError>, current: usize) -> Parsed<
    Seq<ExpressionView>,
> {
    match r {
        Ok(v) => Parsed::Done(expressions_view(v@), current as int),
        Err(e) => Parsed::Failed(e.kind, e.position as int),
    }
}

/// What a statement parser returned, and where it stopped, in the terms of
/// the grammar.
pub open spec fn statement_result(r: Result<Statement, ParseError>, current: usize) -> Parsed<
    StatementView,
> {
    match r {
        Ok(s) => Parsed::Done(s@, current as int),
        Err(e) => Parsed::Failed(e.kind, e.position as int),
    }
}

/// What the program parser returned, and where it stopped, in the terms of
/// the grammar.
pub open spec fn program_result(r: Result<Program, ParseError>, current: usize) -> Parsed<
    Seq<LineView>,
> {
    match r {
        Ok(p) => Parsed::Done(p@, current as int),
        Err(e) => Parsed::Failed(e.kind, e.position as int),
    }
}

/// A parser over a sequence of tokens, with the position of the next token
/// to read.
pub struct Parser {
    pub tokens: Vec<Token>,
    pub current: usize,
}

impl Parser {
    /// The tokens that the parser reads, as values.
    pub open spec fn input(&self) -> Seq<TokenView> {
        tokens_view(self.tokens@)
    }

    /// The position of the next token to read.
    pub open spec fn position(&self) -> int {
        self.current as int
    }

    /// What a call did to the parser. It left the tokens alone. If it
    /// succeeded it moved forward within them; if it failed it stopped at
    /// the token at fault, not before where it began.
    pub open spec fn moved(&self, after: &Parser, failure: Option<ParseError>) -> bool {
        &&& after.tokens == self.tokens
        &&& match failure {
            Some(e) => self.current <= after.current == e.position,
            None => self.current < after.current <= self.tokens.len(),
        }
    }

    /// A parser at the beginning of `tokens`.
    pub fn new(tokens: Vec<Token>) -> (p: Parser)
        ensures
            p.tokens == tokens,
            p.current == 0,
    {
        Parser { tokens, current: 0 }
    }

    /// The next token, if the input has not ended.
    pub fn peek(&self) -> (r: Option<&Token>)
        ensures
            match r {
                Some(t) => self.current < self.tokens.len() && *t == self.tokens[self.position()],
                None => self.current >= self.tokens.len(),
            },
            (match r {
                Some(t) => Some(t@),
                None => None,
            }) == token_at(self.input(), self.position()),
    {
        if self.current < self.tokens.len() {
            Some(&self.tokens[self.current])
        } else {
            None
        }
    }

    /// Moves past the next token, if the input has not ended, and returns
    /// the token before the position reached: the token passed, or at the
    /// end of the input its last token once more.
    pub fn advance(&mut self) -> (r: Option<&Token>)
        ensures
            final(self).tokens == old(self).tokens,
            final(self).current == if old(self).current < old(self).tokens.len() {
                old(self).current + 1
            } else {
                old(self).current as int
            },
            (match r {
                Some(t) => Some(t@),
                None => None,
            }) == token_at(old(self).input(), final(self).position() - 1),
    {
        if self.current < self.tokens.len() {
            self.current = self.current + 1;
        }
        if 0 < self.current && self.current <= self.tokens.len() {
            Some(&self.tokens[self.current - 1])
        } else {
            None
        }
    }

    /// Moves past the next token if it is one of `expected`; says whether it
    /// was.
    pub fn match_token(&mut self, expected: &[Token]) -> (r: bool)
        ensures
            final(self).tokens == old(self).tokens,
            r == (token_at(old(self).input(), old(self).position()) matches Some(t) && exists|
                i: int,
            |
                0 <= i < expected@.len() && (#[trigger] expected@[i])@ == t),
            final(self).current == if r {
                old(self).current + 1
            } else {
                old(self).current as int
            },
    {
        if self.current >= self.tokens.len() {
            return false;
        }
        let mut i: usize = 0;
        while i < expected.len()
            invariant
                0 <= i <= expected@.len(),
                self.current < self.tokens.len(),
                *self == *old(self),
                forall|k: int| 0 <= k < i ==> (#[trigger] expected@[k])@ != self.tokens[self.position()]@,
            decreases expected.len() - i,
        {
            if expected[i].same(&self.tokens[self.current]) {
                self.current = self.current + 1;
                return true;
            }
            i = i + 1;
        }
        false
    }

    /// Whether the next token is `expected`.
    fn at(&self, expected: &Token) -> (r: bool)
        ensures
            r == (token_at(self.input(), self.position()) == Some(expected@)),
    {
        if self.current < self.tokens.len() {
            self.tokens[self.current].same(expected)
        } else {
            false
        }
    }

    /// The binding level of a binary operator, 0 for any other token.
    fn level(token: &Token) -> (r: u8)
        ensures
            r as nat == level_of(token@),
    {
        match token {
            Token::LessThan | Token::GreaterThan | Token::Equals | Token::LessOrEqual
            | Token::GreaterOrEqual | Token::NotEqual => 4,
            Token::Plus | Token::Minus => 3,
            Token::Multiply | Token::Divide => 2,
            Token::Power => 1,
            _ => 0,
        }
    }

    /// Whether the next token is a binary operator of the given level.
    fn at_operator(&self, level: u8) -> (r: bool)
        ensures
            r == (token_at(self.input(), self.position()) matches Some(t) && level > 0 && level_of(t)
                == level),
    {
        if self.current < self.tokens.len() {
            level > 0 && Self::level(&self.tokens[self.current]) == level
        } else {
            false
        }
    }

    fn fail<T>(&self, kind: ParseErrorKind) -> (r: Result<T, ParseError>)
        ensures
            r == Err::<T, ParseError>(ParseError { kind, position: self.current }),
    {
        Err(ParseError { kind, position: self.current })
    }

    /// Parses the arguments of a call, from after the opening parenthesis to
    /// after the closing one.
    pub fn parse_arguments(&mut self) -> (r: Result<Vec<Expression>, ParseError>)
        ensures
            arguments_result(r, final(self).current) == arguments(
                old(self).input(),
                old(self).position(),
                Seq::empty(),
            ),
            old(self).moved(
                final(self),
                match r {
                    Ok(_) => None,
                    Err(e) => Some(e),
                },
            ),
        decreases old(self).tokens.len() - old(self).current, 7nat,
    {
        let ghost tokens = self.input();
        let ghost start = self.position();
        let mut args: Vec<Expression> = Vec::new();
        let mut first = true;
        proof {
            assert(expressions_view(args@) =~= Seq::<ExpressionView>::empty());
        }
        loop
            invariant
                self.tokens == old(self).tokens,
                tokens == old(self).input(),
                start == old(self).position(),
                start <= self.position(),
                !first ==> start < self.position() <= self.tokens.len(),
                first ==> start == self.position(),
                arguments(tokens, self.position(), expressions_view(args@)) == arguments(
                    tokens,
                    start,
                    Seq::empty(),
                ),
            decreases self.tokens.len() - self.current, if first { 1nat } else { 0nat },
        {
            if self.at(&Token::RParen) {
                self.current = self.current + 1;
                return Ok(args);
            }
            let ghost here = self.position();
            let ghost before = expressions_view(args@);
            proof {
                lemma_chain_advances(tokens, here, 4);
            }
            match self.parse_expression() {
                Ok(e) => {
                    args.push(e);
                    proof {
                        assert(expressions_view(args@) =~= before.push(e@));
                    }
                    if self.at(&Token::Comma) {
                        self.current = self.current + 1;
                        first = false;
                    } else if self.at(&Token::RParen) {
                        self.current = self.current + 1;
                        return Ok(args);
                    } else {
                        return self.fail(ParseErrorKind::ExpectedCommaOrParenthesis);
                    }
                },
                Err(e) => {
                    return Err(e);
                },
            }
        }
    }

    /// Parses a primary expression.
    pub fn parse_primary(&mut self) -> (r: Result<Expression, ParseError>)
        ensures
            expression_result(r, final(self).current) == primary(
                old(self).input(),
                old(self).position(),
            ),
            old(self).moved(
                final(self),
                match r {
                    Ok(_) => None,
                    Err(e) => Some(e),
                },
            ),
        decreases old(self).tokens.len() - old(self).current, 0nat,
    {
        if self.current >= self.tokens.len() {
            return self.fail(ParseErrorKind::UnexpectedEnd);
        }
        match &self.tokens[self.current] {
            Token::Number(s) => {
                let e = Expression::Number(s.clone());
                self.current = self.current + 1;
                Ok(e)
            },
            Token::String(s) => {
                let e = Expression::String(s.clone());
                self.current = self.current + 1;
                Ok(e)
            },
            Token::Identifier(s) => {
                let name = s.clone();
                self.current = self.current + 1;
                if self.at(&Token::LParen) {
                    self.current = self.current + 1;
                    match self.parse_arguments() {
                        Ok(arguments) => {
                            proof {
                                lemma_call_view(name, arguments);
                            }
                            Ok(Expression::FunctionCall { name, arguments })
                        },
                        Err(e) => Err(e),
                    }
                } else {
                    Ok(Expression::Variable(name))
                }
            },
            Token::LParen => {
                self.current = self.current + 1;
                match self.parse_expression() {
                    Ok(e) => {
                        if self.at(&Token::RParen) {
                            self.current = self.current + 1;
                            Ok(e)
                        } else {
                            self.fail(ParseErrorKind::ExpectedClosingParenthesis)
                        }
                    },
                    Err(e) => Err(e),
                }
            },
            _ => self.fail(ParseErrorKind::UnexpectedTokenInExpression),
        }
    }

    /// Parses an expression of the given binding level.
    pub fn parse_chain(&mut self, level: u8) -> (r: Result<Expression, ParseError>)
        ensures
            expression_result(r, final(self).current) == chain(
                old(self).input(),
                old(self).position(),
                level as nat,
            ),
            old(self).moved(
                final(self),
                match r {
                    Ok(_) => None,
                    Err(e) => Some(e),
                },
            ),
        decreases old(self).tokens.len() - old(self).current, level + 1,
    {
        if level == 0 {
            return self.parse_primary();
        }
        let ghost tokens = self.input();
        let ghost start = self.position();
        proof {
            lemma_chain_advances(tokens, start, (level - 1) as nat);
        }
        let mut left = match self.parse_chain(level - 1) {
            Ok(e) => e,
            Err(e) => {
                return Err(e);
            },
        };
        while self.at_operator(level)
            invariant
                self.tokens == old(self).tokens,
                tokens == old(self).input(),
                start == old(self).position(),
                level > 0,
                start < self.position() <= self.tokens.len(),
                chain_rest(tokens, self.position(), left@, level as nat) == chain(
                    tokens,
                    start,
                    level as nat,
                ),
            decreases self.tokens.len() - self.current,
        {
            let operator = self.tokens[self.current].clone();
            self.current = self.current + 1;
            proof {
                lemma_chain_advances(tokens, self.position(), (level - 1) as nat);
            }
            match self.parse_chain(level - 1) {
                Ok(right) => {
                    left = Expression::Binary {
                        left: Box::new(left),
                        operator,
                        right: Box::new(right),
                    };
                },
                Err(e) => {
                    return Err(e);
                },
            }
        }
        Ok(left)
    }

    /// Parses a chain of powers.
    pub fn parse_power(&mut self) -> (r: Result<Expression, ParseError>)
        ensures
            expression_result(r, final(self).current) == chain(
                old(self).input(),
                old(self).position(),
                1,
            ),
            old(self).moved(
                final(self),
                match r {
                    Ok(_) => None,
                    Err(e) => Some(e),
                },
            ),
    {
        self.parse_chain(1)
    }

    /// Parses a chain of products and quotients.
    pub fn parse_multiplicative(&mut self) -> (r: Result<Expression, ParseError>)
        ensures
            expression_result(r, final(self).current) == chain(
                old(self).input(),
                old(self).position(),
                2,
            ),
            old(self).moved(
                final(self),
                match r {
                    Ok(_) => None,
                    Err(e) => Some(e),
                },
            ),
    {
        self.parse_chain(2)
    }

    /// Parses a chain of sums and differences.
    pub fn parse_additive(&mut self) -> (r: Result<Expression, ParseError>)
        ensures
            expression_result(r, final(self).current) == chain(
                old(self).input(),
                old(self).position(),
                3,
            ),
            old(self).moved(
                final(self),
                match r {
                    Ok(_) => None,
                    Err(e) => Some(e),
                },
            ),
    {
        self.parse_chain(3)
    }

    /// Parses a chain of comparisons.
    pub fn parse_comparison(&mut self) -> (r: Result<Expression, ParseError>)
        ensures
            expression_result(r, final(self).current) == chain(
                old(self).input(),
                old(self).position(),
                4,
            ),
            old(self).moved(
                final(self),
                match r {
                    Ok(_) => None,
                    Err(e) => Some(e),
                },
            ),
    {
        self.parse_chain(4)
    }

    /// Parses an expression.
    pub fn parse_expression(&mut self) -> (r: Result<Expression, ParseError>)
        ensures
            expression_result(r, final(self).current) == expression(
                old(self).input(),
                old(self).position(),
            ),
            old(self).moved(
                final(self),
                match r {
                    Ok(_) => None,
                    Err(e) => Some(e),
                },
            ),
        decreases old(self).tokens.len() - old(self).current, 6nat,
    {
        self.parse_chain(4)
    }
}

impl Parser {
    /// Parses a `LET` statement, from after the keyword.
    pub fn parse_let(&mut self) -> (r: Result<Statement, ParseError>)
        ensures
            statement_result(r, final(self).current) == let_statement(
                old(self).input(),
                old(self).position(),
            ),
            old(self).moved(
                final(self),
                match r {
                    Ok(_) => None,
                    Err(e) => Some(e),
                },
            ),
    {
        proof {
            lemma_expression_advances(self.input(), self.position() + 2);
        }
        let variable = match self.peek() {
            Some(Token::Identifier(s)) => s.clone(),
            _ => {
                return self.fail(ParseErrorKind::ExpectedVariableAfterLet);
            },
        };
        self.current = self.current + 1;
        if !self.at(&Token::Equals) {
            return self.fail(ParseErrorKind::ExpectedEqualsInLet);
        }
        self.current = self.current + 1;
        match self.parse_expression() {
            Ok(expression) => Ok(Statement::Let { variable, expression }),
            Err(e) => Err(e),
        }
    }

    /// Parses the list of a `PRINT` statement, from after the keyword.
    pub fn parse_print(&mut self) -> (r: Result<Statement, ParseError>)
        ensures
            statement_result(r, final(self).current) == print_items(
                old(self).input(),
                old(self).position(),
                Seq::empty(),
            ),
            final(self).tokens == old(self).tokens,
            final(self).current >= old(self).current,
            r matches Err(e) ==> final(self).current == e.position,
    {
        let ghost tokens = self.input();
        let ghost start = self.position();
        let mut expressions: Vec<Expression> = Vec::new();
        proof {
            assert(expressions_view(expressions@) =~= Seq::<ExpressionView>::empty());
        }
        loop
            invariant
                self.tokens == old(self).tokens,
                tokens == old(self).input(),
                start == old(self).position(),
                start <= self.position(),
                print_items(tokens, self.position(), expressions_view(expressions@))
                    == print_items(tokens, start, Seq::empty()),
            decreases self.tokens.len() - self.current,
        {
            match self.peek() {
                None => {
                    return Ok(Statement::Print { expressions, semicolon: false });
                },
                Some(Token::EOL) => {
                    return Ok(Statement::Print { expressions, semicolon: false });
                },
                Some(Token::Else) => {
                    return Ok(Statement::Print { expressions, semicolon: false });
                },
                Some(Token::Semicolon) => {
                    self.current = self.current + 1;
                    return Ok(Statement::Print { expressions, semicolon: true });
                },
                Some(_) => {},
            }
            let ghost before = expressions_view(expressions@);
            proof {
                lemma_expression_advances(tokens, self.position());
            }
            match self.parse_expression() {
                Ok(e) => {
                    expressions.push(e);
                    proof {
                        assert(expressions_view(expressions@) =~= before.push(e@));
                    }
                    if self.at(&Token::Comma) {
                        self.current = self.current + 1;
                    }
                },
                Err(e) => {
                    return Err(e);
                },
            }
        }
    }

    /// Parses a `FOR` statement, from after the keyword.
    pub fn parse_for(&mut self) -> (r: Result<Statement, ParseError>)
        ensures
            statement_result(r, final(self).current) == for_statement(
                old(self).input(),
                old(self).position(),
            ),
            old(self).moved(
                final(self),
                match r {
                    Ok(_) => None,
                    Err(e) => Some(e),
                },
            ),
    {
        let variable = match self.peek() {
            Some(Token::Identifier(s)) => s.clone(),
            _ => {
                return self.fail(ParseErrorKind::ExpectedVariableAfterFor);
            },
        };
        self.current = self.current + 1;
        if !self.at(&Token::Equals) {
            return self.fail(ParseErrorKind::ExpectedEqualsInFor);
        }
        self.current = self.current + 1;
        let start = match self.parse_expression() {
            Ok(e) => e,
            Err(e) => {
                return Err(e);
            },
        };
        if !self.at(&Token::To) {
            return self.fail(ParseErrorKind::ExpectedTo);
        }
        self.current = self.current + 1;
        let end = match self.parse_expression() {
            Ok(e) => e,
            Err(e) => {
                return Err(e);
            },
        };
        let step = if self.at(&Token::Step) {
            self.current = self.current + 1;
            match self.parse_expression() {
                Ok(e) => e,
                Err(e) => {
                    return Err(e);
                },
            }
        } else {
            Expression::Number("1.0".to_owned())
        };
        Ok(Statement::For { loop_data: ForLoop { variable, start, end, step } })
    }

    /// Parses an `IF` statement, from after the keyword.
    pub fn parse_if(&mut self) -> (r: Result<Statement, ParseError>)
        ensures
            statement_result(r, final(self).current) == if_statement(
                old(self).input(),
                old(self).position(),
            ),
            old(self).moved(
                final(self),
                match r {
                    Ok(_) => None,
                    Err(e) => Some(e),
                },
            ),
        decreases old(self).tokens.len() - old(self).current, 0nat,
    {
        let condition = match self.parse_expression() {
            Ok(e) => e,
            Err(e) => {
                return Err(e);
            },
        };
        if !self.at(&Token::Then) {
            return self.fail(ParseErrorKind::ExpectedThen);
        }
        self.current = self.current + 1;
        proof {
            lemma_statement_advances(self.input(), self.position());
        }
        let then_branch = match self.parse_statement() {
            Ok(s) => s,
            Err(e) => {
                return Err(e);
            },
        };
        if self.at(&Token::Else) {
            self.current = self.current + 1;
            match self.parse_statement() {
                Ok(else_branch) => Ok(
                    Statement::If {
                        condition,
                        then_branch: Box::new(then_branch),
                        else_branch: Some(Box::new(else_branch)),
                    },
                ),
                Err(e) => Err(e),
            }
        } else {
            Ok(Statement::If { condition, then_branch: Box::new(then_branch), else_branch: None })
        }
    }

    /// Parses one statement.
    pub fn parse_statement(&mut self) -> (r: Result<Statement, ParseError>)
        ensures
            statement_result(r, final(self).current) == statement(
                old(self).input(),
                old(self).position(),
            ),
            old(self).moved(
                final(self),
                match r {
                    Ok(_) => None,
                    Err(e) => Some(e),
                },
            ),
        decreases old(self).tokens.len() - old(self).current, 1nat,
    {
        if self.current >= self.tokens.len() {
            return self.fail(ParseErrorKind::UnexpectedEnd);
        }
        proof {
            lemma_statement_advances(self.input(), self.position());
        }
        match &self.tokens[self.current] {
            Token::Let => {
                self.current = self.current + 1;
                self.parse_let()
            },
            Token::Print => {
                self.current = self.current + 1;
                self.parse_print()
            },
            Token::If => {
                self.current = self.current + 1;
                self.parse_if()
            },
            Token::For => {
                self.current = self.current + 1;
                self.parse_for()
            },
            Token::Input => {
                self.current = self.current + 1;
                match self.peek() {
                    Some(Token::Identifier(s)) => {
                        let variable = s.clone();
                        self.current = self.current + 1;
                        Ok(Statement::Input { variable })
                    },
                    _ => self.fail(ParseErrorKind::ExpectedVariableAfterInput),
                }
            },
            Token::Next => {
                self.current = self.current + 1;
                match self.peek() {
                    Some(Token::Identifier(s)) => {
                        let variable = s.clone();
                        self.current = self.current + 1;
                        Ok(Statement::Next { variable })
                    },
                    _ => self.fail(ParseErrorKind::ExpectedVariableAfterNext),
                }
            },
            Token::End => {
                self.current = self.current + 1;
                Ok(Statement::End)
            },
            Token::Identifier(s) => {
                let name = s.clone();
                self.current = self.current + 1;
                if self.at(&Token::LParen) {
                    self.current = self.current + 1;
                    match self.parse_arguments() {
                        Ok(arguments) => {
                            let variable = name.clone();
                            proof {
                                lemma_call_view(name, arguments);
                            }
                            Ok(
                                Statement::Let {
                                    variable,
                                    expression: Expression::FunctionCall { name, arguments },
                                },
                            )
                        },
                        Err(e) => Err(e),
                    }
                } else if self.at(&Token::Equals) {
                    self.current = self.current + 1;
                    match self.parse_expression() {
                        Ok(expression) => Ok(Statement::Let { variable: name, expression }),
                        Err(e) => Err(e),
                    }
                } else {
                    self.fail(ParseErrorKind::ExpectedEquals)
                }
            },
            _ => self.fail(ParseErrorKind::UnexpectedTokenInStatement),
        }
    }

    /// Parses the rest of the input as a program.
    pub fn parse_program(&mut self) -> (r: Result<Program, ParseError>)
        ensures
            program_result(r, final(self).current) == program_lines(
                old(self).input(),
                old(self).position(),
                Seq::empty(),
            ),
            final(self).tokens == old(self).tokens,
            final(self).current >= old(self).current,
            r matches Err(e) ==> final(self).current == e.position,
    {
        let ghost tokens = self.input();
        let ghost start = self.position();
        let mut lines: Vec<Line> = Vec::new();
        proof {
            assert(lines_view(lines@) =~= Seq::<LineView>::empty());
        }
        loop
            invariant
                self.tokens == old(self).tokens,
                tokens == old(self).input(),
                start == old(self).position(),
                start <= self.position(),
                lines@.len() <= MAX_LINES,
                program_lines(tokens, self.position(), lines_view(lines@)) == program_lines(
                    tokens,
                    start,
                    Seq::empty(),
                ),
            decreases self.tokens.len() - self.current,
        {
            match self.peek() {
                None => {
                    return Ok(Program { lines });
                },
                Some(Token::EOF) => {
                    return Ok(Program { lines });
                },
                Some(Token::EOL) => {
                    self.current = self.current + 1;
                    continue ;
                },
                Some(_) => {},
            }
            let ghost before = lines_view(lines@);
            proof {
                lemma_statement_advances(tokens, self.position());
            }
            match self.parse_statement() {
                Ok(statement) => {
                    if lines.len() >= MAX_LINES as usize {
                        return self.fail(ParseErrorKind::TooManyLines);
                    }
                    let line = Line { number: lines.len() as u32, statement };
                    lines.push(line);
                    proof {
                        assert(lines_view(lines@) =~= before.push(line@));
                    }
                    if self.at(&Token::EOL) {
                        self.current = self.current + 1;
                    }
                },
                Err(e) => {
                    return Err(e);
                },
            }
        }
    }
}

/// The program that a sequence of tokens stands for, or why it stands for
/// none.
pub open spec fn program(tokens: Seq<TokenView>) -> Parsed<Seq<LineView>> {
    program_lines(tokens, 0, Seq::empty())
}

/// Parses a whole sequence of tokens. The lines of the program that it
/// returns are numbered from 0.
pub fn parse(tokens: Vec<Token>) -> (r: Result<Program, ParseError>)
    ensures
        match program(tokens_view(tokens@)) {
            Parsed::Done(lines, _) => r is Ok && r->Ok_0@ == lines && numbered(lines),
            Parsed::Failed(kind, position) => r == Err::<Program, ParseError>(
                ParseError { kind, position: position as usize },
            ),
        },
{
    proof {
        lemma_lines_numbered(tokens_view(tokens@), 0, Seq::empty());
    }
    let mut parser = Parser::new(tokens);
    parser.parse_program()
}

} // verus!
