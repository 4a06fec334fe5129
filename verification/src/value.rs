//! What the interpreter computes with and what it exchanges with its host.
//!
//! The interpreter does no floating-point arithmetic and no console input.
//! Where a statement needs either, evaluation stops with a [`Request`]; the
//! host carries it out and hands back a [`Reply`].

use vstd::prelude::*;
use crate::number::Number;
use crate::text::{decimal, decimal_text};

verus! {

/// A run-time value.
#[derive(Debug, PartialEq)]
pub enum Value {
    Number(Number),
    String(String),
}

/// The value of a [`Value`].
pub enum ValueView {
    Number(Number),
    String(Seq<char>),
}

impl View for Value {
    type V = ValueView;

    open spec fn view(&self) -> ValueView {
        match self {
            Value::Number(n) => ValueView::Number(*n),
            Value::String(s) => ValueView::String(s@),
        }
    }
}

/// An arithmetic operation on two numbers.
#[derive(Clone, Copy, Debug, PartialEq, Eq, Structural)]
pub enum Operation {
    Add,
    Subtract,
    Multiply,
    Divide,
    Power,
}

/// A built-in function of one number.
#[derive(Clone, Copy, Debug, PartialEq, Eq, Structural)]
pub enum Builtin {
    /// `ABS`: the absolute value.
    Abs,
    /// `SQR`: the square root.
    Sqr,
    /// `SIN`: the sine.
    Sin,
    /// `COS`: the cosine.
    Cos,
    /// `TAN`: the tangent.
    Tan,
    /// `INT`: the largest whole number that is not greater.
    Int,
}

/// Work that the interpreter asks of its host. Each is answered by a number.
#[derive(Debug, PartialEq)]
pub enum Request {
    /// The binary64 number nearest to a decimal literal.
    Literal(String),
    /// `left operation right` in binary64 arithmetic.
    Binary { operation: Operation, left: Number, right: Number },
    /// A built-in function applied to a number.
    Call { function: Builtin, argument: Number },
    /// A random number, uniformly distributed in [0, 1).
    Random,
    /// A number read from the console: write the prompt, read one line and
    /// take the number that it holds.
    Input { prompt: String },
}

/// The value of a [`Request`].
pub enum RequestView {
    Literal(Seq<char>),
    Binary { operation: Operation, left: Number, right: Number },
    Call { function: Builtin, argument: Number },
    Random,
    Input { prompt: Seq<char> },
}

impl View for Request {
    type V = RequestView;

    open spec fn view(&self) -> RequestView {
        match self {
            Request::Literal(s) => RequestView::Literal(s@),
            Request::Binary { operation, left, right } => RequestView::Binary {
                operation: *operation,
                left: *left,
                right: *right,
            },
            Request::Call { function, argument } => RequestView::Call {
                function: *function,
                argument: *argument,
            },
            Request::Random => RequestView::Random,
            Request::Input { prompt } => RequestView::Input { prompt: prompt@ },
        }
    }
}

/// The host's answer to a [`Request`].
#[derive(Clone, Copy, Debug, PartialEq, Eq, Structural)]
pub enum Reply {
    /// The number asked for.
    Number(Number),
    /// There is no such number: the text was not numeric.
    Invalid,
}

/// A piece of output, to be written to the console in order.
#[derive(Debug, PartialEq)]
pub enum Output {
    /// Text to write as it is.
    Text(String),
    /// A number to write in its shortest decimal form.
    Number(Number),
}

/// The value of an [`Output`].
pub enum OutputView {
    Text(Seq<char>),
    Number(Number),
}

impl View for Output {
    type V = OutputView;

    open spec fn view(&self) -> OutputView {
        match self {
            Output::Text(s) => OutputView::Text(s@),
            Output::Number(n) => OutputView::Number(*n),
        }
    }
}

/// The values of a sequence of output pieces.
pub open spec fn outputs_view(s: Seq<Output>) -> Seq<OutputView> {
    s.map_values(|o: Output| o@)
}

/// Why a statement failed.
#[derive(Debug, PartialEq)]
pub enum RuntimeError {
    /// A variable was read before anything was stored in it.
    UndefinedVariable(String),
    /// An operator was applied to a string, or a token that is no operator
    /// stood in an operator's place.
    TypeMismatch,
    DivisionByZero,
    /// `SQR` of a number below zero.
    NegativeSquareRoot,
    /// The argument of a built-in function was a string.
    ArgumentNotNumber(Builtin),
    /// A built-in function was called without an argument.
    MissingArgument(Builtin),
    UnknownFunction(String),
    /// A string was assigned to a variable.
    StringAssignment,
    /// The condition of an `IF` was a string.
    ConditionNotNumber,
    /// The host had no number to give: the input was not numeric.
    InvalidInput,
    /// Start, end or step of a `FOR` was a string.
    LoopBoundsNotNumbers,
    /// The step of the innermost loop was a string at `NEXT`.
    StepNotNumber,
    /// The end of the innermost loop was a string at `NEXT`.
    EndNotNumber,
    /// `NEXT` names another variable than the innermost loop.
    LoopMismatch { next: String, innermost: String },
    /// `NEXT` with no loop open.
    NextWithoutFor,
    /// The statement is one that the interpreter does not execute.
    NotImplemented,
}

/// The value of a [`RuntimeError`].
pub enum RuntimeErrorView {
    UndefinedVariable(Seq<char>),
    TypeMismatch,
    DivisionByZero,
    NegativeSquareRoot,
    ArgumentNotNumber(Builtin),
    MissingArgument(Builtin),
    UnknownFunction(Seq<char>),
    StringAssignment,
    ConditionNotNumber,
    InvalidInput,
    LoopBoundsNotNumbers,
    StepNotNumber,
    EndNotNumber,
    LoopMismatch { next: Seq<char>, innermost: Seq<char> },
    NextWithoutFor,
    NotImplemented,
}

impl View for RuntimeError {
    type V = RuntimeErrorView;

    open spec fn view(&self) -> RuntimeErrorView {
        match self {
            RuntimeError::UndefinedVariable(s) => RuntimeErrorView::UndefinedVariable(s@),
            RuntimeError::TypeMismatch => RuntimeErrorView::TypeMismatch,
            RuntimeError::DivisionByZero => RuntimeErrorView::DivisionByZero,
            RuntimeError::NegativeSquareRoot => RuntimeErrorView::NegativeSquareRoot,
            RuntimeError::ArgumentNotNumber(f) => RuntimeErrorView::ArgumentNotNumber(*f),
            RuntimeError::MissingArgument(f) => RuntimeErrorView::MissingArgument(*f),
            RuntimeError::UnknownFunction(s) => RuntimeErrorView::UnknownFunction(s@),
            RuntimeError::StringAssignment => RuntimeErrorView::StringAssignment,
            RuntimeError::ConditionNotNumber => RuntimeErrorView::ConditionNotNumber,
            RuntimeError::InvalidInput => RuntimeErrorView::InvalidInput,
            RuntimeError::LoopBoundsNotNumbers => RuntimeErrorView::LoopBoundsNotNumbers,
            RuntimeError::StepNotNumber => RuntimeErrorView::StepNotNumber,
            RuntimeError::EndNotNumber => RuntimeErrorView::EndNotNumber,
            RuntimeError::LoopMismatch { next, innermost } => RuntimeErrorView::LoopMismatch {
                next: next@,
                innermost: innermost@,
            },
            RuntimeError::NextWithoutFor => RuntimeErrorView::NextWithoutFor,
            RuntimeError::NotImplemented => RuntimeErrorView::NotImplemented,
        }
    }
}

impl RuntimeErrorView {
    /// Whether the error says that a `NEXT` has no loop of its variable to
    /// close.
    pub open spec fn is_loop_mismatch(self) -> bool {
        self is NextWithoutFor || self is LoopMismatch
    }
}

/// The name of a built-in function in the language.
pub open spec fn builtin_name(f: Builtin) -> Seq<char> {
    match f {
        Builtin::Abs => "ABS"@,
        Builtin::Sqr => "SQR"@,
        Builtin::Sin => "SIN"@,
        Builtin::Cos => "COS"@,
        Builtin::Tan => "TAN"@,
        Builtin::Int => "INT"@,
    }
}

/// What an error says in words.
pub open spec fn message_of(e: RuntimeErrorView) -> Seq<char> {
    match e {
        RuntimeErrorView::UndefinedVariable(name) => "Undefined variable: "@ + name,
        RuntimeErrorView::TypeMismatch => "Invalid operation or type mismatch"@,
        RuntimeErrorView::DivisionByZero => "Division by zero"@,
        RuntimeErrorView::NegativeSquareRoot => "Cannot take square root of negative number"@,
        RuntimeErrorView::ArgumentNotNumber(f) => builtin_name(f) + " requires a number argument"@,
        RuntimeErrorView::MissingArgument(f) => builtin_name(f) + " requires an argument"@,
        RuntimeErrorView::UnknownFunction(name) => "Unknown function: "@ + name,
        RuntimeErrorView::StringAssignment => "Can only store numbers in variables"@,
        RuntimeErrorView::ConditionNotNumber => "Condition must evaluate to a number"@,
        RuntimeErrorView::InvalidInput => "Invalid number input"@,
        RuntimeErrorView::LoopBoundsNotNumbers => "Loop bounds must be numbers"@,
        RuntimeErrorView::StepNotNumber => "Step must be a number"@,
        RuntimeErrorView::EndNotNumber => "End must be a number"@,
        RuntimeErrorView::LoopMismatch { next, innermost } => "NEXT "@ + next
            + " doesn't match FOR "@ + innermost,
        RuntimeErrorView::NextWithoutFor => "NEXT without FOR"@,
        RuntimeErrorView::NotImplemented => "Statement not implemented yet"@,
    }
}

/// What the failure of a line says in words.
pub open spec fn failure_of(line: usize, e: RuntimeErrorView) -> Seq<char> {
    "Error at line "@ + decimal(line as nat) + ": "@ + message_of(e)
}

impl Builtin {
    /// The name of the function in the language.
    pub fn name(self) -> (r: &'static str)
        ensures
            r@ == builtin_name(self),
    {
        match self {
            Builtin::Abs => "ABS",
            Builtin::Sqr => "SQR",
            Builtin::Sin => "SIN",
            Builtin::Cos => "COS",
            Builtin::Tan => "TAN",
            Builtin::Int => "INT",
        }
    }
}

impl RuntimeError {
    /// The error in words.
    pub fn message(&self) -> (r: String)
        ensures
            r@ == message_of(self@),
    {
        match self {
            RuntimeError::UndefinedVariable(name) => {
                let mut r = "Undefined variable: ".to_owned();
                r.append(name.as_str());
                r
            },
            RuntimeError::TypeMismatch => "Invalid operation or type mismatch".to_owned(),
            RuntimeError::DivisionByZero => "Division by zero".to_owned(),
            RuntimeError::NegativeSquareRoot => "Cannot take square root of negative number".to_owned(),
            RuntimeError::ArgumentNotNumber(f) => {
                let mut r = f.name().to_owned();
                r.append(" requires a number argument");
                r
            },
            RuntimeError::MissingArgument(f) => {
                let mut r = f.name().to_owned();
                r.append(" requires an argument");
                r
            },
            RuntimeError::UnknownFunction(name) => {
                let mut r = "Unknown function: ".to_owned();
                r.append(name.as_str());
                r
            },
            RuntimeError::StringAssignment => "Can only store numbers in variables".to_owned(),
            RuntimeError::ConditionNotNumber => "Condition must evaluate to a number".to_owned(),
            RuntimeError::InvalidInput => "Invalid number input".to_owned(),
            RuntimeError::LoopBoundsNotNumbers => "Loop bounds must be numbers".to_owned(),
            RuntimeError::StepNotNumber => "Step must be a number".to_owned(),
            RuntimeError::EndNotNumber => "End must be a number".to_owned(),
            RuntimeError::LoopMismatch { next, innermost } => {
                let mut r = "NEXT ".to_owned();
                r.append(next.as_str());
                r.append(" doesn't match FOR ");
                r.append(innermost.as_str());
                r
            },
            RuntimeError::NextWithoutFor => "NEXT without FOR".to_owned(),
            RuntimeError::NotImplemented => "Statement not implemented yet".to_owned(),
        }
    }

    /// The failure of a line in words: the line's index, then the error.
    pub fn failure(&self, line: usize) -> (r: String)
        ensures
            r@ == failure_of(line, self@),
    {
        let mut r = "Error at line ".to_owned();
        r.append(decimal_text(line).as_str());
        r.append(": ");
        r.append(self.message().as_str());
        r
    }
}

} // verus!
