//! The syntax tree that the parser builds and both back ends read.

use vstd::prelude::*;
use crate::token::{Token, TokenView};

verus! {

/// An expression.
#[derive(Debug, PartialEq)]
pub enum Expression {
    /// A numeric literal as written: digits with at most one decimal point.
    Number(String),
    String(String),
    Variable(String),
    Binary { left: Box<Expression>, operator: Token, right: Box<Expression> },
    FunctionCall { name: String, arguments: Vec<Expression> },
}

/// The loop header of a `FOR` statement.
#[derive(Debug, PartialEq)]
pub struct ForLoop {
    pub variable: String,
    pub start: Expression,
    pub end: Expression,
    pub step: Expression,
}

/// A statement. `Goto` and `Rem` are declared and never built by the parser.
#[derive(Debug, PartialEq)]
pub enum Statement {
    Let { variable: String, expression: Expression },
    Print { expressions: Vec<Expression>, semicolon: bool },
    If { condition: Expression, then_branch: Box<Statement>, else_branch: Option<Box<Statement>> },
    Input { variable: String },
    For { loop_data: ForLoop },
    Next { variable: String },
    End,
    Goto(u32),
    Rem(String),
}

/// One statement with its index in the program, counted from 0 in the order
/// of parsing.
#[derive(Debug, PartialEq)]
pub struct Line {
    pub number: u32,
    pub statement: Statement,
}

/// A program: its lines in order.
#[derive(Debug, PartialEq)]
pub struct Program {
    pub lines: Vec<Line>,
}

/// The value of an [`Expression`]: the same tree over sequences of characters.
pub enum ExpressionView {
    Number(Seq<char>),
    String(Seq<char>),
    Variable(Seq<char>),
    Binary { left: Box<ExpressionView>, operator: TokenView, right: Box<ExpressionView> },
    FunctionCall { name: Seq<char>, arguments: Seq<ExpressionView> },
}

/// The value of a [`ForLoop`].
pub struct ForLoopView {
    pub variable: Seq<char>,
    pub start: ExpressionView,
    pub end: ExpressionView,
    pub step: ExpressionView,
}

/// The value of a [`Statement`].
pub enum StatementView {
    Let { variable: Seq<char>, expression: ExpressionView },
    Print { expressions: Seq<ExpressionView>, semicolon: bool },
    If {
        condition: ExpressionView,
        then_branch: Box<StatementView>,
        else_branch: Option<Box<StatementView>>,
    },
    Input { variable: Seq<char> },
    For { loop_data: ForLoopView },
    Next { variable: Seq<char> },
    End,
    Goto(u32),
    Rem(Seq<char>),
}

/// The value of a [`Line`].
pub struct LineView {
    pub number: u32,
    pub statement: StatementView,
}

/// The value of an expression tree.
pub open spec fn expression_view(e: Expression) -> ExpressionView
    decreases e,
{
    match e {
        Expression::Number(s) => ExpressionView::Number(s@),
        Expression::String(s) => ExpressionView::String(s@),
        Expression::Variable(s) => ExpressionView::Variable(s@),
        Expression::Binary { left, operator, right } => ExpressionView::Binary {
            left: Box::new(expression_view(*left)),
            operator: operator@,
            right: Box::new(expression_view(*right)),
        },
        Expression::FunctionCall { name, arguments } => ExpressionView::FunctionCall {
            name: name@,
            arguments: Seq::new(
                arguments@.len(),
                |i: int|
                    if 0 <= i < arguments@.len() {
                        expression_view(arguments@[i])
                    } else {
                        ExpressionView::Number(Seq::empty())
                    },
            ),
        },
    }
}

impl View for Expression {
    type V = ExpressionView;

    open spec fn view(&self) -> ExpressionView {
        expression_view(*self)
    }
}

/// The values of a sequence of expressions.
pub open spec fn expressions_view(s: Seq<Expression>) -> Seq<ExpressionView> {
    s.map_values(|e: Expression| e@)
}

/// The arguments of a call are viewed one by one.
pub proof fn lemma_call_view(name: String, arguments: Vec<Expression>)
    ensures
        (Expression::FunctionCall { name, arguments })@ == (ExpressionView::FunctionCall {
            name: name@,
            arguments: expressions_view(arguments@),
        }),
{
    let e = Expression::FunctionCall { name, arguments };
    assert(e@->FunctionCall_arguments =~= expressions_view(arguments@));
}

impl View for ForLoop {
    type V = ForLoopView;

    open spec fn view(&self) -> ForLoopView {
        ForLoopView {
            variable: self.variable@,
            start: self.start@,
            end: self.end@,
            step: self.step@,
        }
    }
}

/// The value of a statement tree.
pub open spec fn statement_view(s: Statement) -> StatementView
    decreases s,
{
    match s {
        Statement::Let { variable, expression } => StatementView::Let {
            variable: variable@,
            expression: expression@,
        },
        Statement::Print { expressions, semicolon } => StatementView::Print {
            expressions: expressions_view(expressions@),
            semicolon,
        },
        Statement::If { condition, then_branch, else_branch } => StatementView::If {
            condition: condition@,
            then_branch: Box::new(statement_view(*then_branch)),
            else_branch: match else_branch {
                Some(b) => Some(Box::new(statement_view(*b))),
                None => None,
            },
        },
        Statement::Input { variable } => StatementView::Input { variable: variable@ },
        Statement::For { loop_data } => StatementView::For { loop_data: loop_data@ },
        Statement::Next { variable } => StatementView::Next { variable: variable@ },
        Statement::End => StatementView::End,
        Statement::Goto(n) => StatementView::Goto(n),
        Statement::Rem(s) => StatementView::Rem(s@),
    }
}

impl View for Statement {
    type V = StatementView;

    open spec fn view(&self) -> StatementView {
        statement_view(*self)
    }
}

impl View for Line {
    type V = LineView;

    open spec fn view(&self) -> LineView {
        LineView { number: self.number, statement: self.statement@ }
    }
}

/// The values of a sequence of lines.
pub open spec fn lines_view(s: Seq<Line>) -> Seq<LineView> {
    s.map_values(|l: Line| l@)
}

impl View for Program {
    type V = Seq<LineView>;

    open spec fn view(&self) -> Seq<LineView> {
        lines_view(self.lines@)
    }
}

impl Program {
    /// The empty program.
    pub fn new() -> (p: Program)
        ensures
            p@ == Seq::<LineView>::empty(),
    {
        let p = Program { lines: Vec::new() };
        proof {
            assert(p@ =~= Seq::<LineView>::empty());
        }
        p
    }
}

/// Copies a sequence of expressions.
pub fn clone_expressions(v: &Vec<Expression>) -> (r: Vec<Expression>)
    ensures
        expressions_view(r@) == expressions_view(v@),
    decreases v,
{
    let mut r: Vec<Expression> = Vec::new();
    let mut i: usize = 0;
    while i < v.len()
        invariant
            0 <= i <= v.len(),
            r@.len() == i,
            forall|k: int| 0 <= k < i ==> r@[k]@ == v@[k]@,
        decreases v.len() - i,
    {
        r.push(v[i].clone());
        i = i + 1;
    }
    proof {
        assert(expressions_view(r@) =~= expressions_view(v@));
    }
    r
}

impl Clone for Expression {
    /// A copy with the same value.
    fn clone(&self) -> (r: Expression)
        ensures
            r@ == self@,
        decreases self,
    {
        match self {
            Expression::Number(s) => Expression::Number(s.clone()),
            Expression::String(s) => Expression::String(s.clone()),
            Expression::Variable(s) => Expression::Variable(s.clone()),
            Expression::Binary { left, operator, right } => Expression::Binary {
                left: Box::new((**left).clone()),
                operator: operator.clone(),
                right: Box::new((**right).clone()),
            },
            Expression::FunctionCall { name, arguments } => {
                let copy = clone_expressions(arguments);
                let name_copy = name.clone();
                proof {
                    lemma_call_view(*name, *arguments);
                    lemma_call_view(name_copy, copy);
                }
                Expression::FunctionCall { name: name_copy, arguments: copy }
            },
        }
    }
}

impl Clone for ForLoop {
    /// A copy with the same value.
    fn clone(&self) -> (r: ForLoop)
        ensures
            r@ == self@,
    {
        ForLoop {
            variable: self.variable.clone(),
            start: self.start.clone(),
            end: self.end.clone(),
            step: self.step.clone(),
        }
    }
}

impl Clone for Statement {
    /// A copy with the same value.
    fn clone(&self) -> (r: Statement)
        ensures
            r@ == self@,
        decreases self,
    {
        match self {
            Statement::Let { variable, expression } => Statement::Let {
                variable: variable.clone(),
                expression: expression.clone(),
            },
            Statement::Print { expressions, semicolon } => Statement::Print {
                expressions: clone_expressions(expressions),
                semicolon: *semicolon,
            },
            Statement::If { condition, then_branch, else_branch } => Statement::If {
                condition: condition.clone(),
                then_branch: Box::new((**then_branch).clone()),
                else_branch: match else_branch {
                    Some(b) => Some(Box::new((**b).clone())),
                    None => None,
                },
            },
            Statement::Input { variable } => Statement::Input { variable: variable.clone() },
            Statement::For { loop_data } => Statement::For { loop_data: loop_data.clone() },
            Statement::Next { variable } => Statement::Next { variable: variable.clone() },
            Statement::End => Statement::End,
            Statement::Goto(n) => Statement::Goto(*n),
            Statement::Rem(s) => Statement::Rem(s.clone()),
        }
    }
}

impl Clone for Line {
    /// A copy with the same value.
    fn clone(&self) -> (r: Line)
        ensures
            r@ == self@,
    {
        Line { number: self.number, statement: self.statement.clone() }
    }
}

impl Clone for Program {
    /// A copy with the same value.
    fn clone(&self) -> (r: Program)
        ensures
            r@ == self@,
    {
        let mut lines: Vec<Line> = Vec::new();
        let mut i: usize = 0;
        while i < self.lines.len()
            invariant
                0 <= i <= self.lines.len(),
                lines@.len() == i,
                forall|k: int| 0 <= k < i ==> lines@[k]@ == self.lines@[k]@,
            decreases self.lines.len() - i,
        {
            lines.push(self.lines[i].clone());
            i = i + 1;
        }
        let r = Program { lines };
        proof {
            assert(r@ =~= self@);
        }
        r
    }
}

} // verus!
