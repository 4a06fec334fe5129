//! What expressions and statements mean.
//!
//! Evaluation is a function of the syntax tree, the variables and the
//! replies that the host has given since the statement began. It reads the
//! replies in order. Where it needs one that is not there yet, its result is
//! the request to put to the host; with that reply added, evaluation of the
//! same statement goes one request further.

use vstd::prelude::*;
use crate::number::{Number, ZERO_BITS, ONE_BITS};
use crate::token::TokenView;
use crate::ast::{ExpressionView, ForLoopView, StatementView, LineView};
use crate::value::{ValueView, Operation, Builtin, RequestView, Reply, OutputView, RuntimeErrorView};

verus! {

/// How far the evaluation of an expression got.
pub enum EvaluationView {
    /// It has a value.
    Value(ValueView),
    /// It needs the host's reply to a request.
    Request(RequestView),
    /// It failed.
    Error(RuntimeErrorView),
}

/// The state of a running program.
pub struct State {
    /// The variables that have been assigned, with their numbers.
    pub variables: Map<Seq<char>, Number>,
    /// The loops that are open, innermost last.
    pub loops: Seq<ForLoopView>,
    /// For each open loop, the index of the line that opened it.
    pub loop_stack: Seq<usize>,
    /// The index of the line to execute next.
    pub current_line: usize,
    /// Whether the program has not ended.
    pub running: bool,
}

/// How far the execution of a statement got.
pub enum Outcome {
    /// It needs the host's reply to a request. Nothing has changed.
    Request(RequestView),
    /// It failed, after this output. The state has not changed.
    Error(Seq<OutputView>, RuntimeErrorView),
    /// It is done, with this output, and has left this state.
    Complete(Seq<OutputView>, State),
}

/// The number `0.0`.
pub open spec fn zero() -> Number {
    Number { bits: ZERO_BITS }
}

/// The result of a request, given the replies so far: the number of the
/// reply at position `at` if there is one, a failure if that reply is
/// `Invalid`, and else the request itself.
pub open spec fn ask(request: RequestView, replies: Seq<Reply>, at: nat) -> (EvaluationView, nat) {
    if at < replies.len() {
        match replies[at as int] {
            Reply::Number(n) => (EvaluationView::Value(ValueView::Number(n)), at + 1),
            Reply::Invalid => (EvaluationView::Error(RuntimeErrorView::InvalidInput), at + 1),
        }
    } else {
        (EvaluationView::Request(request), at)
    }
}

/// The built-in function of one argument that a name stands for.
pub open spec fn builtin_named(name: Seq<char>) -> Option<Builtin> {
    if name == "ABS"@ {
        Some(Builtin::Abs)
    } else if name == "SQR"@ {
        Some(Builtin::Sqr)
    } else if name == "SIN"@ {
        Some(Builtin::Sin)
    } else if name == "COS"@ {
        Some(Builtin::Cos)
    } else if name == "TAN"@ {
        Some(Builtin::Tan)
    } else if name == "INT"@ {
        Some(Builtin::Int)
    } else {
        None
    }
}

/// The arithmetic operation that an operator token stands for.
pub open spec fn operation_of(operator: TokenView) -> Option<Operation> {
    match operator {
        TokenView::Plus => Some(Operation::Add),
        TokenView::Minus => Some(Operation::Subtract),
        TokenView::Multiply => Some(Operation::Multiply),
        TokenView::Divide => Some(Operation::Divide),
        TokenView::Power => Some(Operation::Power),
        _ => None,
    }
}

/// Whether a comparison holds of two numbers.
pub open spec fn compare(operator: TokenView, left: Number, right: Number) -> bool {
    match operator {
        TokenView::LessThan => left.lt(right),
        TokenView::GreaterThan => right.lt(left),
        TokenView::Equals => left.eq(right),
        TokenView::LessOrEqual => left.le(right),
        TokenView::GreaterOrEqual => right.le(left),
        TokenView::NotEqual => !left.eq(right),
        _ => false,
    }
}

/// A binary operator applied to two values. A comparison of two numbers is
/// decided here and gives `1.0` or `0.0`. Arithmetic on two numbers is asked
/// of the host, but for a division by zero, which fails. Anything else is
/// a type mismatch.
pub open spec fn apply(
    operator: TokenView,
    left: ValueView,
    right: ValueView,
    replies: Seq<Reply>,
    at: nat,
) -> (EvaluationView, nat) {
    match (left, right) {
        (ValueView::Number(l), ValueView::Number(r)) => {
            if operator.is_comparison() {
                (
                    EvaluationView::Value(
                        ValueView::Number(Number::truth_of(compare(operator, l, r))),
                    ),
                    at,
                )
            } else if operation_of(operator) is Some {
                if operator is Divide && r.zero() {
                    (EvaluationView::Error(RuntimeErrorView::DivisionByZero), at)
                } else {
                    ask(
                        RequestView::Binary {
                            operation: operation_of(operator)->0,
                            left: l,
                            right: r,
                        },
                        replies,
                        at,
                    )
                }
            } else {
                (EvaluationView::Error(RuntimeErrorView::TypeMismatch), at)
            }
        },
        _ => (EvaluationView::Error(RuntimeErrorView::TypeMismatch), at),
    }
}

/// A built-in function applied to a value: asked of the host for a number,
/// but for the square root of a number below zero, which fails.
pub open spec fn call(function: Builtin, argument: ValueView, replies: Seq<Reply>, at: nat) -> (
    EvaluationView,
    nat,
) {
    match argument {
        ValueView::Number(n) => {
            if function == Builtin::Sqr && n.lt(zero()) {
                (EvaluationView::Error(RuntimeErrorView::NegativeSquareRoot), at)
            } else {
                ask(RequestView::Call { function, argument: n }, replies, at)
            }
        },
        ValueView::String(_) => (
            EvaluationView::Error(RuntimeErrorView::ArgumentNotNumber(function)),
            at,
        ),
    }
}

/// The evaluation of an expression with the replies from position `at` on,
/// and the position of the first reply that it has not read.
///
/// The operands of a binary operator are evaluated left before right. A
/// built-in function evaluates its first argument and no other; `RND` takes
/// none and asks the host for a random number.
pub open spec fn evaluate(
    e: ExpressionView,
    variables: Map<Seq<char>, Number>,
    replies: Seq<Reply>,
    at: nat,
) -> (EvaluationView, nat)
    decreases e,
{
    match e {
        ExpressionView::Number(text) => ask(RequestView::Literal(text), replies, at),
        ExpressionView::String(s) => (EvaluationView::Value(ValueView::String(s)), at),
        ExpressionView::Variable(name) => if variables.contains_key(name) {
            (EvaluationView::Value(ValueView::Number(variables[name])), at)
        } else {
            (EvaluationView::Error(RuntimeErrorView::UndefinedVariable(name)), at)
        },
        ExpressionView::Binary { left, operator, right } => {
            let (l, after_left) = evaluate(*left, variables, replies, at);
            match l {
                EvaluationView::Value(lv) => {
                    let (r, after_right) = evaluate(*right, variables, replies, after_left);
                    match r {
                        EvaluationView::Value(rv) => apply(operator, lv, rv, replies, after_right),
                        _ => (r, after_right),
                    }
                },
                _ => (l, after_left),
            }
        },
        ExpressionView::FunctionCall { name, arguments } => match builtin_named(name) {
            Some(function) => if arguments.len() == 0 {
                (EvaluationView::Error(RuntimeErrorView::MissingArgument(function)), at)
            } else {
                let (a, after) = evaluate(arguments[0], variables, replies, at);
                match a {
                    EvaluationView::Value(v) => call(function, v, replies, after),
                    _ => (a, after),
                }
            },
            None => if name == "RND"@ {
                ask(RequestView::Random, replies, at)
            } else {
                (EvaluationView::Error(RuntimeErrorView::UnknownFunction(name)), at)
            },
        },
    }
}

/// What a value looks like in the output.
pub open spec fn shown(v: ValueView) -> OutputView {
    match v {
        ValueView::Number(n) => OutputView::Number(n),
        ValueView::String(s) => OutputView::Text(s),
    }
}

/// `PRINT` from its expression `i` on, after the output `out`: a space
/// before every expression but the first, the values in order, and a newline
/// at the end unless the statement ends in a semicolon.
pub open spec fn print_from(
    expressions: Seq<ExpressionView>,
    i: int,
    semicolon: bool,
    st: State,
    replies: Seq<Reply>,
    at: nat,
    out: Seq<OutputView>,
) -> Outcome
    decreases expressions.len() - i,
{
    if !(0 <= i < expressions.len()) {
        Outcome::Complete(
            if semicolon {
                out
            } else {
                out.push(OutputView::Text("\n"@))
            },
            st,
        )
    } else {
        let spaced = if i > 0 {
            out.push(OutputView::Text(" "@))
        } else {
            out
        };
        let (v, after) = evaluate(expressions[i], st.variables, replies, at);
        match v {
            EvaluationView::Value(v) => print_from(
                expressions,
                i + 1,
                semicolon,
                st,
                replies,
                after,
                spaced.push(shown(v)),
            ),
            EvaluationView::Request(r) => Outcome::Request(r),
            EvaluationView::Error(e) => Outcome::Error(spaced, e),
        }
    }
}

/// The prompt for the input of a variable.
pub open spec fn prompt_for(variable: Seq<char>) -> Seq<char> {
    "Enter "@ + variable + ": "@
}

/// The state with a number stored in a variable.
pub open spec fn assigned(st: State, variable: Seq<char>, n: Number) -> State {
    State { variables: st.variables.insert(variable, n), ..st }
}

/// `FOR`: start, end and step are evaluated in this order and must be
/// numbers. The start goes into the variable and the loop is opened at the
/// current line. No bound is tested: the body follows in any case.
pub open spec fn execute_for(l: ForLoopView, st: State, replies: Seq<Reply>, at: nat) -> Outcome {
    let (start, after_start) = evaluate(l.start, st.variables, replies, at);
    match start {
        EvaluationView::Value(start) => {
            let (end, after_end) = evaluate(l.end, st.variables, replies, after_start);
            match end {
                EvaluationView::Value(end) => {
                    let (step, after_step) = evaluate(l.step, st.variables, replies, after_end);
                    match step {
                        EvaluationView::Value(step) => match (start, end, step) {
                            (
                                ValueView::Number(s),
                                ValueView::Number(_),
                                ValueView::Number(_),
                            ) => Outcome::Complete(
                                Seq::empty(),
                                State {
                                    variables: st.variables.insert(l.variable, s),
                                    loops: st.loops.push(l),
                                    loop_stack: st.loop_stack.push(st.current_line),
                                    ..st
                                },
                            ),
                            _ => Outcome::Error(
                                Seq::empty(),
                                RuntimeErrorView::LoopBoundsNotNumbers,
                            ),
                        },
                        EvaluationView::Request(r) => Outcome::Request(r),
                        EvaluationView::Error(e) => Outcome::Error(Seq::empty(), e),
                    }
                },
                EvaluationView::Request(r) => Outcome::Request(r),
                EvaluationView::Error(e) => Outcome::Error(Seq::empty(), e),
            }
        },
        EvaluationView::Request(r) => Outcome::Request(r),
        EvaluationView::Error(e) => Outcome::Error(Seq::empty(), e),
    }
}

/// Whether a loop goes on once its variable has become `next`: the step is
/// above zero and `next` is at most the end, or the step is below zero and
/// `next` is at least the end.
pub open spec fn continues(step: Number, next: Number, end: Number) -> bool {
    (zero().lt(step) && next.le(end)) || (step.lt(zero()) && end.le(next))
}

/// `NEXT`: the innermost open loop must be one of the same variable. Its
/// step is evaluated anew, the host adds it to the variable, and its end is
/// evaluated anew. If the loop goes on, the sum goes into the variable and
/// the current line becomes the line that opened the loop; else the loop is
/// closed.
pub open spec fn execute_next(variable: Seq<char>, st: State, replies: Seq<Reply>, at: nat) -> Outcome {
    if st.loops.len() == 0 {
        Outcome::Error(Seq::empty(), RuntimeErrorView::NextWithoutFor)
    } else if st.loops.last().variable != variable {
        Outcome::Error(
            Seq::empty(),
            RuntimeErrorView::LoopMismatch { next: variable, innermost: st.loops.last().variable },
        )
    } else {
        let l = st.loops.last();
        let current = st.variables[variable];
        let (step, after_step) = evaluate(l.step, st.variables, replies, at);
        match step {
            EvaluationView::Value(ValueView::Number(step)) => {
                let (sum, after_sum) = ask(
                    RequestView::Binary { operation: Operation::Add, left: current, right: step },
                    replies,
                    after_step,
                );
                match sum {
                    EvaluationView::Value(ValueView::Number(next)) => {
                        let (end, after_end) = evaluate(l.end, st.variables, replies, after_sum);
                        match end {
                            EvaluationView::Value(ValueView::Number(end)) => if continues(
                                step,
                                next,
                                end,
                            ) {
                                Outcome::Complete(
                                    Seq::empty(),
                                    State {
                                        variables: st.variables.insert(variable, next),
                                        current_line: st.loop_stack.last(),
                                        ..st
                                    },
                                )
                            } else {
                                Outcome::Complete(
                                    Seq::empty(),
                                    State {
                                        loops: st.loops.drop_last(),
                                        loop_stack: st.loop_stack.drop_last(),
                                        ..st
                                    },
                                )
                            },
                            EvaluationView::Value(ValueView::String(_)) => Outcome::Error(
                                Seq::empty(),
                                RuntimeErrorView::EndNotNumber,
                            ),
                            EvaluationView::Request(r) => Outcome::Request(r),
                            EvaluationView::Error(e) => Outcome::Error(Seq::empty(), e),
                        }
                    },
                    EvaluationView::Value(ValueView::String(_)) => Outcome::Error(
                        Seq::empty(),
                        RuntimeErrorView::TypeMismatch,
                    ),
                    EvaluationView::Request(r) => Outcome::Request(r),
                    EvaluationView::Error(e) => Outcome::Error(Seq::empty(), e),
                }
            },
            EvaluationView::Value(ValueView::String(_)) => Outcome::Error(
                Seq::empty(),
                RuntimeErrorView::StepNotNumber,
            ),
            EvaluationView::Request(r) => Outcome::Request(r),
            EvaluationView::Error(e) => Outcome::Error(Seq::empty(), e),
        }
    }
}

/// The execution of a statement in a state, with the replies from position
/// `at` on.
pub open spec fn execute(s: StatementView, st: State, replies: Seq<Reply>, at: nat) -> Outcome
    decreases s,
{
    match s {
        StatementView::Print { expressions, semicolon } => print_from(
            expressions,
            0,
            semicolon,
            st,
            replies,
            at,
            Seq::empty(),
        ),
        StatementView::Let { variable, expression } => {
            let (v, after) = evaluate(expression, st.variables, replies, at);
            match v {
                EvaluationView::Value(ValueView::Number(n)) => Outcome::Complete(
                    Seq::empty(),
                    assigned(st, variable, n),
                ),
                EvaluationView::Value(ValueView::String(_)) => Outcome::Error(
                    Seq::empty(),
                    RuntimeErrorView::StringAssignment,
                ),
                EvaluationView::Request(r) => Outcome::Request(r),
                EvaluationView::Error(e) => Outcome::Error(Seq::empty(), e),
            }
        },
        StatementView::If { condition, then_branch, else_branch } => {
            let (v, after) = evaluate(condition, st.variables, replies, at);
            match v {
                EvaluationView::Value(ValueView::Number(n)) => if !n.zero() {
                    execute(*then_branch, st, replies, after)
                } else {
                    match else_branch {
                        Some(b) => execute(*b, st, replies, after),
                        None => Outcome::Complete(Seq::empty(), st),
                    }
                },
                EvaluationView::Value(ValueView::String(_)) => Outcome::Error(
                    Seq::empty(),
                    RuntimeErrorView::ConditionNotNumber,
                ),
                EvaluationView::Request(r) => Outcome::Request(r),
                EvaluationView::Error(e) => Outcome::Error(Seq::empty(), e),
            }
        },
        StatementView::Input { variable } => {
            let (v, after) = ask(RequestView::Input { prompt: prompt_for(variable) }, replies, at);
            match v {
                EvaluationView::Value(ValueView::Number(n)) => Outcome::Complete(
                    Seq::empty(),
                    assigned(st, variable, n),
                ),
                EvaluationView::Value(ValueView::String(_)) => Outcome::Error(
                    Seq::empty(),
                    RuntimeErrorView::InvalidInput,
                ),
                EvaluationView::Request(r) => Outcome::Request(r),
                EvaluationView::Error(e) => Outcome::Error(Seq::empty(), e),
            }
        },
        StatementView::For { loop_data } => execute_for(loop_data, st, replies, at),
        StatementView::Next { variable } => execute_next(variable, st, replies, at),
        StatementView::End => Outcome::Complete(Seq::empty(), State { running: false, ..st }),
        StatementView::Goto(_) => Outcome::Error(Seq::empty(), RuntimeErrorView::NotImplemented),
        StatementView::Rem(_) => Outcome::Error(Seq::empty(), RuntimeErrorView::NotImplemented),
    }
}

/// What one step of the driver reports.
pub enum StatusView {
    /// A statement is done; the next step goes on from the current line.
    Continue,
    /// The current statement needs the host's reply to a request.
    Request(RequestView),
    /// The program has ended.
    Finished,
    /// The statement at this line failed.
    Failed { line: usize, error: RuntimeErrorView },
}

/// The result of one step of the driver.
pub struct StepView {
    pub state: State,
    pub replies: Seq<Reply>,
    pub output: Seq<OutputView>,
    pub status: StatusView,
}

/// The line after a line. Line indices end with the largest `usize`, where
/// no program has a line, so there the line stays.
pub open spec fn next_line(line: usize) -> usize {
    if line < usize::MAX {
        (line + 1) as usize
    } else {
        line
    }
}

/// One step of the driver. If the program has ended, or the current line
/// is past its last, it is finished. Else the statement at the current
/// line is executed with the replies given so far. If it needs another
/// reply or fails, nothing changes. If it is done, the current line moves on
/// to the line after the one where the statement left it ([`next_line`]),
/// and the replies are dropped.
pub open spec fn step(program: Seq<LineView>, st: State, replies: Seq<Reply>) -> StepView {
    if !st.running || st.current_line >= program.len() {
        StepView { state: st, replies, output: Seq::empty(), status: StatusView::Finished }
    } else {
        match execute(program[st.current_line as int].statement, st, replies, 0) {
            Outcome::Request(r) => StepView {
                state: st,
                replies,
                output: Seq::empty(),
                status: StatusView::Request(r),
            },
            Outcome::Error(output, error) => StepView {
                state: st,
                replies,
                output,
                status: StatusView::Failed { line: st.current_line, error },
            },
            Outcome::Complete(output, after) => StepView {
                state: State { current_line: next_line(after.current_line), ..after },
                replies: Seq::empty(),
                output,
                status: StatusView::Continue,
            },
        }
    }
}

/// The state at the start of a program: at its first line and running, with
/// the variables and open loops that were there.
pub open spec fn restarted(st: State) -> State {
    State { current_line: 0, running: true, ..st }
}

/// What a run of steps amounts to: the state and the replies that it left,
/// all its output, and how its last step ended.
///
/// `run(.., 0)` is one step. `run(.., k)` for `k > 0` is `run(.., k - 1)`
/// and, if that ended in `Continue`, one more step after it.
pub open spec fn run(program: Seq<LineView>, st: State, replies: Seq<Reply>, k: nat) -> StepView
    decreases k,
{
    if k == 0 {
        step(program, st, replies)
    } else {
        let before = run(program, st, replies, (k - 1) as nat);
        if before.status is Continue {
            let last = step(program, before.state, before.replies);
            StepView { output: before.output + last.output, ..last }
        } else {
            before
        }
    }
}

/// Evaluation reads the replies forward: it ends at or after the position
/// at which it began.
pub proof fn lemma_evaluate_reads_forward(
    e: ExpressionView,
    variables: Map<Seq<char>, Number>,
    replies: Seq<Reply>,
    at: nat,
)
    ensures
        evaluate(e, variables, replies, at).1 >= at,
    decreases e,
{
    match e {
        ExpressionView::Binary { left, operator, right } => {
            lemma_evaluate_reads_forward(*left, variables, replies, at);
            let after_left = evaluate(*left, variables, replies, at).1;
            lemma_evaluate_reads_forward(*right, variables, replies, after_left);
        },
        ExpressionView::FunctionCall { name, arguments } => {
            if arguments.len() > 0 {
                lemma_evaluate_reads_forward(arguments[0], variables, replies, at);
            }
        },
        _ => {},
    }
}

/// `PRINT` leaves the state as it was.
pub proof fn lemma_print_keeps_state(
    expressions: Seq<ExpressionView>,
    i: int,
    semicolon: bool,
    st: State,
    replies: Seq<Reply>,
    at: nat,
    out: Seq<OutputView>,
)
    ensures
        print_from(expressions, i, semicolon, st, replies, at, out) matches Outcome::Complete(
            _,
            after,
        ) ==> after == st,
    decreases expressions.len() - i,
{
    if 0 <= i < expressions.len() {
        let spaced = if i > 0 {
            out.push(OutputView::Text(" "@))
        } else {
            out
        };
        let (v, after) = evaluate(expressions[i], st.variables, replies, at);
        match v {
            EvaluationView::Value(v) => {
                lemma_print_keeps_state(
                    expressions,
                    i + 1,
                    semicolon,
                    st,
                    replies,
                    after,
                    spaced.push(shown(v)),
                );
            },
            _ => {},
        }
    }
}

/// A statement that begins with no reply left to read and is done has not
/// moved the current line: only `NEXT` moves it, and `NEXT` asks the host
/// for a sum before it does.
pub proof fn lemma_no_jump_without_reply(s: StatementView, st: State, replies: Seq<Reply>, at: nat)
    requires
        at >= replies.len(),
    ensures
        execute(s, st, replies, at) matches Outcome::Complete(_, after) ==> after.current_line
            == st.current_line,
    decreases s,
{
    match s {
        StatementView::Print { expressions, semicolon } => {
            lemma_print_keeps_state(expressions, 0, semicolon, st, replies, at, Seq::empty());
        },
        StatementView::If { condition, then_branch, else_branch } => {
            lemma_evaluate_reads_forward(condition, st.variables, replies, at);
            let after = evaluate(condition, st.variables, replies, at).1;
            lemma_no_jump_without_reply(*then_branch, st, replies, after);
            match else_branch {
                Some(b) => {
                    lemma_no_jump_without_reply(*b, st, replies, after);
                },
                None => {},
            }
        },
        StatementView::Next { variable } => {
            if st.loops.len() > 0 {
                lemma_evaluate_reads_forward(st.loops.last().step, st.variables, replies, at);
            }
        },
        _ => {},
    }
}

/// A comparison of two numbers is decided without the host, and its value
/// is exactly `1.0` if it holds and exactly `0.0` if it does not.
pub proof fn lemma_comparison_of_numbers(
    operator: TokenView,
    left: Number,
    right: Number,
    replies: Seq<Reply>,
    at: nat,
)
    requires
        operator.is_comparison(),
    ensures
        apply(operator, ValueView::Number(left), ValueView::Number(right), replies, at) == (
            EvaluationView::Value(
                ValueView::Number(
                    Number { bits: if compare(operator, left, right) {
                        ONE_BITS
                    } else {
                        ZERO_BITS
                    } },
                ),
            ),
            at,
        ),
{
}

/// Whatever the operands of a comparison are, and whatever the host
/// replies, a value of the comparison is the number `1.0` or the number
/// `0.0` and nothing else.
pub proof fn lemma_comparison_is_zero_or_one(
    left: ExpressionView,
    operator: TokenView,
    right: ExpressionView,
    variables: Map<Seq<char>, Number>,
    replies: Seq<Reply>,
    at: nat,
)
    requires
        operator.is_comparison(),
    ensures
        evaluate(
            ExpressionView::Binary { left: Box::new(left), operator, right: Box::new(right) },
            variables,
            replies,
            at,
        ).0 matches EvaluationView::Value(v) ==> v == ValueView::Number(Number { bits: ONE_BITS })
            || v == ValueView::Number(Number { bits: ZERO_BITS }),
{
}

/// A division whose divisor is zero, of either sign, fails with
/// `DivisionByZero`. The host is not asked for a quotient, so none comes
/// back, infinite or otherwise.
pub proof fn lemma_division_by_zero_fails(
    left: Number,
    right: Number,
    replies: Seq<Reply>,
    at: nat,
)
    requires
        right.zero(),
    ensures
        apply(TokenView::Divide, ValueView::Number(left), ValueView::Number(right), replies, at)
            == (EvaluationView::Error(RuntimeErrorView::DivisionByZero), at),
{
}

/// A division of any two expressions fails with `DivisionByZero` if both
/// have numbers as values and the divisor's is zero.
pub proof fn lemma_quotient_by_zero_fails(
    left: ExpressionView,
    right: ExpressionView,
    variables: Map<Seq<char>, Number>,
    replies: Seq<Reply>,
    at: nat,
)
    requires
        evaluate(left, variables, replies, at).0 matches EvaluationView::Value(
            ValueView::Number(_),
        ),
        evaluate(
            right,
            variables,
            replies,
            evaluate(left, variables, replies, at).1,
        ).0 matches EvaluationView::Value(ValueView::Number(d)) && d.zero(),
    ensures
        evaluate(
            ExpressionView::Binary {
                left: Box::new(left),
                operator: TokenView::Divide,
                right: Box::new(right),
            },
            variables,
            replies,
            at,
        ).0 == EvaluationView::Error(RuntimeErrorView::DivisionByZero),
{
}

/// A step that fails changes nothing and reports the line at which it
/// stood; a step at a statement that fails is a step that fails.
pub proof fn lemma_failure_stops(program: Seq<LineView>, st: State, replies: Seq<Reply>)
    ensures
        step(program, st, replies).status matches StatusView::Failed { line, error } ==> {
            &&& line == st.current_line
            &&& step(program, st, replies).state == st
            &&& step(program, st, replies).replies == replies
        },
        st.running && st.current_line < program.len() ==> (execute(
            program[st.current_line as int].statement,
            st,
            replies,
            0,
        ) is Error <==> step(program, st, replies).status is Failed),
{
}

/// A run ends with the first step that does not end in `Continue`: more
/// steps add nothing to it.
pub proof fn lemma_run_ends(program: Seq<LineView>, st: State, replies: Seq<Reply>, k: nat, more: nat)
    requires
        !(run(program, st, replies, k).status is Continue),
    ensures
        run(program, st, replies, k + more) == run(program, st, replies, k),
    decreases more,
{
    if more > 0 {
        lemma_run_ends(program, st, replies, k, (more - 1) as nat);
    }
}

/// `FOR` with numbers for start, end and step is done at once, whatever
/// the three numbers are: the variable holds the start, the loop is open at
/// the current line, and the current line has not moved, so the body comes
/// next. No bound is compared.
pub proof fn lemma_for_enters_body(l: ForLoopView, st: State, replies: Seq<Reply>, at: nat)
    requires
        evaluate(l.start, st.variables, replies, at).0 matches EvaluationView::Value(
            ValueView::Number(_),
        ),
        evaluate(
            l.end,
            st.variables,
            replies,
            evaluate(l.start, st.variables, replies, at).1,
        ).0 matches EvaluationView::Value(ValueView::Number(_)),
        evaluate(
            l.step,
            st.variables,
            replies,
            evaluate(
                l.end,
                st.variables,
                replies,
                evaluate(l.start, st.variables, replies, at).1,
            ).1,
        ).0 matches EvaluationView::Value(ValueView::Number(_)),
    ensures
        execute(StatementView::For { loop_data: l }, st, replies, at) matches Outcome::Complete(
            output,
            after,
        ) && {
            &&& output.len() == 0
            &&& evaluate(l.start, st.variables, replies, at).0 == EvaluationView::Value(
                ValueView::Number(after.variables[l.variable]),
            )
            &&& after.variables == st.variables.insert(l.variable, after.variables[l.variable])
            &&& after.loops == st.loops.push(l)
            &&& after.loop_stack == st.loop_stack.push(st.current_line)
            &&& after.current_line == st.current_line
            &&& after.running == st.running
        },
{
}

/// A step at a `FOR` with numbers for start, end and step ends in
/// `Continue` at the line after it: the body is entered, whatever the
/// numbers are.
pub proof fn lemma_for_step_enters_body(program: Seq<LineView>, st: State, replies: Seq<Reply>)
    requires
        st.running,
        st.current_line < program.len(),
        program[st.current_line as int].statement is For,
        execute(program[st.current_line as int].statement, st, replies, 0) is Complete,
    ensures
        step(program, st, replies).status is Continue,
        step(program, st, replies).state.current_line == next_line(st.current_line),
        step(program, st, replies).state.loops == st.loops.push(
            program[st.current_line as int].statement->loop_data,
        ),
{
}

/// `NEXT`, once it has numbers for the step, the sum and the end, is done,
/// and these three alone decide which way: if the loop continues, the
/// variable holds the sum and the current line is the line that opened the
/// loop, so that the line after it comes next; if not, the loop is closed
/// and the current line has not moved.
pub proof fn lemma_next_decides(
    variable: Seq<char>,
    st: State,
    replies: Seq<Reply>,
    at: nat,
    step: Number,
    sum: Number,
    end: Number,
)
    requires
        st.loops.len() > 0,
        st.loops.last().variable == variable,
        evaluate(st.loops.last().step, st.variables, replies, at).0 == EvaluationView::Value(
            ValueView::Number(step),
        ),
        ask(
            RequestView::Binary {
                operation: Operation::Add,
                left: st.variables[variable],
                right: step,
            },
            replies,
            evaluate(st.loops.last().step, st.variables, replies, at).1,
        ).0 == EvaluationView::Value(ValueView::Number(sum)),
        evaluate(
            st.loops.last().end,
            st.variables,
            replies,
            (evaluate(st.loops.last().step, st.variables, replies, at).1 + 1) as nat,
        ).0 == EvaluationView::Value(ValueView::Number(end)),
    ensures
        execute(StatementView::Next { variable }, st, replies, at) == Outcome::Complete(
            Seq::empty(),
            if continues(step, sum, end) {
                State {
                    variables: st.variables.insert(variable, sum),
                    current_line: st.loop_stack.last(),
                    ..st
                }
            } else {
                State {
                    loops: st.loops.drop_last(),
                    loop_stack: st.loop_stack.drop_last(),
                    ..st
                }
            },
        ),
{
}

/// `NEXT` with no loop open, or with an innermost loop of another
/// variable, fails with a loop mismatch, whatever the replies are.
pub proof fn lemma_next_without_loop_fails(
    variable: Seq<char>,
    st: State,
    replies: Seq<Reply>,
    at: nat,
)
    requires
        st.loops.len() == 0 || st.loops.last().variable != variable,
    ensures
        execute(StatementView::Next { variable }, st, replies, at) matches Outcome::Error(
            output,
            error,
        ) && output.len() == 0 && error.is_loop_mismatch(),
{
}

/// A step at such a `NEXT` fails at its line and changes nothing, and the
/// run ends there.
pub proof fn lemma_next_without_loop_stops(
    program: Seq<LineView>,
    st: State,
    replies: Seq<Reply>,
    more: nat,
)
    requires
        st.running,
        st.current_line < program.len(),
        program[st.current_line as int].statement matches StatementView::Next { variable }
            && (st.loops.len() == 0 || st.loops.last().variable != variable),
    ensures
        step(program, st, replies).status matches StatusView::Failed { line, error } && line
            == st.current_line && error.is_loop_mismatch(),
        step(program, st, replies).state == st,
        run(program, st, replies, more) == step(program, st, replies),
{
    lemma_next_without_loop_fails(
        program[st.current_line as int].statement->Next_variable,
        st,
        replies,
        0,
    );
    lemma_run_ends(program, st, replies, 0, more);
}

/// A request stands where the replies end: evaluation that begins within
/// the replies and needs the host has read them all.
pub proof fn lemma_request_at_end(
    e: ExpressionView,
    variables: Map<Seq<char>, Number>,
    replies: Seq<Reply>,
    at: nat,
)
    requires
        at <= replies.len(),
    ensures
        evaluate(e, variables, replies, at).1 <= replies.len(),
        evaluate(e, variables, replies, at).0 is Request ==> evaluate(e, variables, replies, at).1
            == replies.len(),
    decreases e,
{
    match e {
        ExpressionView::Binary { left, operator, right } => {
            lemma_request_at_end(*left, variables, replies, at);
            let after_left = evaluate(*left, variables, replies, at).1;
            lemma_request_at_end(*right, variables, replies, after_left);
        },
        ExpressionView::FunctionCall { name, arguments } => {
            if arguments.len() > 0 {
                lemma_request_at_end(arguments[0], variables, replies, at);
            }
        },
        _ => {},
    }
}

/// More replies do not change an evaluation that has ended: if an
/// expression has a value or has failed with some replies, it has the same
/// value or failure, at the same position, with any replies after them.
pub proof fn lemma_evaluate_is_stable(
    e: ExpressionView,
    variables: Map<Seq<char>, Number>,
    replies: Seq<Reply>,
    more: Seq<Reply>,
    at: nat,
)
    requires
        at <= replies.len(),
        !(evaluate(e, variables, replies, at).0 is Request),
    ensures
        evaluate(e, variables, replies + more, at) == evaluate(e, variables, replies, at),
    decreases e,
{
    let longer = replies + more;
    assert(forall|i: int| 0 <= i < replies.len() ==> longer[i] == replies[i]);
    match e {
        ExpressionView::Binary { left, operator, right } => {
            lemma_request_at_end(*left, variables, replies, at);
            let (l, after_left) = evaluate(*left, variables, replies, at);
            if !(l is Request) {
                lemma_evaluate_is_stable(*left, variables, replies, more, at);
                if l is Value {
                    lemma_request_at_end(*right, variables, replies, after_left);
                    let (r, after_right) = evaluate(*right, variables, replies, after_left);
                    if !(r is Request) {
                        lemma_evaluate_is_stable(*right, variables, replies, more, after_left);
                    }
                }
            }
        },
        ExpressionView::FunctionCall { name, arguments } => {
            if arguments.len() > 0 {
                lemma_request_at_end(arguments[0], variables, replies, at);
                let (a, after) = evaluate(arguments[0], variables, replies, at);
                if !(a is Request) {
                    lemma_evaluate_is_stable(arguments[0], variables, replies, more, at);
                }
            }
        },
        _ => {},
    }
}

/// More replies do not change the printing of expressions that has ended.
pub proof fn lemma_print_is_stable(
    expressions: Seq<ExpressionView>,
    i: int,
    semicolon: bool,
    st: State,
    replies: Seq<Reply>,
    more: Seq<Reply>,
    at: nat,
    out: Seq<OutputView>,
)
    requires
        at <= replies.len(),
        !(print_from(expressions, i, semicolon, st, replies, at, out) is Request),
    ensures
        print_from(expressions, i, semicolon, st, replies + more, at, out) == print_from(
            expressions,
            i,
            semicolon,
            st,
            replies,
            at,
            out,
        ),
    decreases expressions.len() - i,
{
    if 0 <= i < expressions.len() {
        let spaced = if i > 0 {
            out.push(OutputView::Text(" "@))
        } else {
            out
        };
        lemma_request_at_end(expressions[i], st.variables, replies, at);
        lemma_evaluate_is_stable(expressions[i], st.variables, replies, more, at);
        let (v, after) = evaluate(expressions[i], st.variables, replies, at);
        match v {
            EvaluationView::Value(v) => {
                lemma_print_is_stable(
                    expressions,
                    i + 1,
                    semicolon,
                    st,
                    replies,
                    more,
                    after,
                    spaced.push(shown(v)),
                );
            },
            _ => {},
        }
    }
}

/// More replies do not change the execution of a statement that has ended:
/// a statement that is done or has failed with some replies is done or has
/// failed in the same way with any replies after them. So the replies to
/// the requests of a statement, given one by one, lead to one outcome.
pub proof fn lemma_execute_is_stable(
    s: StatementView,
    st: State,
    replies: Seq<Reply>,
    more: Seq<Reply>,
    at: nat,
)
    requires
        at <= replies.len(),
        !(execute(s, st, replies, at) is Request),
    ensures
        execute(s, st, replies + more, at) == execute(s, st, replies, at),
    decreases s,
{
    let longer = replies + more;
    assert(forall|i: int| 0 <= i < replies.len() ==> longer[i] == replies[i]);
    match s {
        StatementView::Print { expressions, semicolon } => {
            lemma_print_is_stable(expressions, 0, semicolon, st, replies, more, at, Seq::empty());
        },
        StatementView::Let { variable, expression } => {
            lemma_evaluate_is_stable(expression, st.variables, replies, more, at);
        },
        StatementView::If { condition, then_branch, else_branch } => {
            lemma_request_at_end(condition, st.variables, replies, at);
            lemma_evaluate_is_stable(condition, st.variables, replies, more, at);
            let (v, after) = evaluate(condition, st.variables, replies, at);
            match v {
                EvaluationView::Value(ValueView::Number(n)) => {
                    if !n.zero() {
                        lemma_execute_is_stable(*then_branch, st, replies, more, after);
                    } else {
                        match else_branch {
                            Some(b) => {
                                lemma_execute_is_stable(*b, st, replies, more, after);
                            },
                            None => {},
                        }
                    }
                },
                _ => {},
            }
        },
        StatementView::For { loop_data } => {
            let l = loop_data;
            lemma_request_at_end(l.start, st.variables, replies, at);
            let (start, after_start) = evaluate(l.start, st.variables, replies, at);
            if !(start is Request) {
                lemma_evaluate_is_stable(l.start, st.variables, replies, more, at);
                if start is Value {
                    lemma_request_at_end(l.end, st.variables, replies, after_start);
                    let (end, after_end) = evaluate(l.end, st.variables, replies, after_start);
                    if !(end is Request) {
                        lemma_evaluate_is_stable(l.end, st.variables, replies, more, after_start);
                        if end is Value {
                            lemma_evaluate_is_stable(
                                l.step,
                                st.variables,
                                replies,
                                more,
                                after_end,
                            );
                        }
                    }
                }
            }
        },
        StatementView::Next { variable } => {
            if st.loops.len() > 0 && st.loops.last().variable == variable {
                let l = st.loops.last();
                lemma_request_at_end(l.step, st.variables, replies, at);
                let (step, after_step) = evaluate(l.step, st.variables, replies, at);
                if !(step is Request) {
                    lemma_evaluate_is_stable(l.step, st.variables, replies, more, at);
                    match step {
                        EvaluationView::Value(ValueView::Number(step)) => {
                            let (sum, after_sum) = ask(
                                RequestView::Binary {
                                    operation: Operation::Add,
                                    left: st.variables[variable],
                                    right: step,
                                },
                                replies,
                                after_step,
                            );
                            match sum {
                                EvaluationView::Value(ValueView::Number(next)) => {
                                    lemma_evaluate_is_stable(
                                        l.end,
                                        st.variables,
                                        replies,
                                        more,
                                        after_sum,
                                    );
                                },
                                _ => {},
                            }
                        },
                        _ => {},
                    }
                }
            }
        },
        _ => {},
    }
}

} // verus!
