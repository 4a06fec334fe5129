//! The interpreter: a program executed line by line, with the host doing
//! the arithmetic and the console input.
//!
//! [`Interpreter::execute_program`] runs a program until it ends, fails or
//! needs the host; [`Interpreter::resume`] goes on with the host's reply.
//! Both return the output that the program has produced meanwhile.

use vstd::prelude::*;
use vstd::pervasive::unreached;
use crate::number::{Number, ONE_BITS};
use crate::random::random_number;
use crate::token::Token;
use crate::ast::{
    Expression, ForLoop, ForLoopView, Statement, Program, expressions_view, lemma_call_view,
};
use crate::value::{
    Value, Operation, Builtin, Request, Reply, Output, OutputView, RuntimeError, outputs_view,
};
use crate::environment::Environment;
use crate::semantics::{
    EvaluationView, State, Outcome, StatusView, StepView, ask, builtin_named, apply, call,
    evaluate, print_from, prompt_for, assigned, execute_for, execute_next, execute, step, run,
    restarted, lemma_no_jump_without_reply,
};

verus! {

/// How far the evaluation of an expression got.
#[derive(Debug, PartialEq)]
pub enum Evaluation {
    /// It has a value.
    Value(Value),
    /// It needs the host's reply to a request.
    Request(Request),
    /// It failed.
    Error(RuntimeError),
}

impl View for Evaluation {
    type V = EvaluationView;

    open spec fn view(&self) -> EvaluationView {
        match self {
            Evaluation::Value(v) => EvaluationView::Value(v@),
            Evaluation::Request(r) => EvaluationView::Request(r@),
            Evaluation::Error(e) => EvaluationView::Error(e@),
        }
    }
}

/// How far the execution of a statement got.
#[derive(Debug, PartialEq)]
pub enum Progress {
    /// It needs the host's reply to a request. Nothing has changed.
    Request(Request),
    /// It failed, after this output. Nothing has changed.
    Error(Vec<Output>, RuntimeError),
    /// It is done, with this output.
    Complete(Vec<Output>),
}

/// What one step reports.
#[derive(Debug, PartialEq)]
pub enum Status {
    /// A statement is done; the next step goes on from the current line.
    Continue,
    /// The current statement needs the host's reply to a request.
    Request(Request),
    /// The program has ended.
    Finished,
    /// The statement at this line failed.
    Failed { line: usize, error: RuntimeError },
}

impl View for Status {
    type V = StatusView;

    open spec fn view(&self) -> StatusView {
        match self {
            Status::Continue => StatusView::Continue,
            Status::Request(r) => StatusView::Request(r@),
            Status::Finished => StatusView::Finished,
            Status::Failed { line, error } => StatusView::Failed { line: *line, error: error@ },
        }
    }
}

/// The output of a step or of a run of steps, and how it ended.
#[derive(Debug, PartialEq)]
pub struct Step {
    pub output: Vec<Output>,
    pub status: Status,
}

/// The values of a sequence of loop headers.
pub open spec fn loops_view(s: Seq<ForLoop>) -> Seq<ForLoopView> {
    s.map_values(|l: ForLoop| l@)
}

/// An interpreter: the state of a run, the program, and the replies that
/// the host has given since the current statement began.
pub struct Interpreter {
    pub variables: Environment,
    pub loops: Vec<ForLoop>,
    pub loop_stack: Vec<usize>,
    pub current_line: usize,
    pub running: bool,
    pub program: Program,
    pub replies: Vec<Reply>,
}

impl Interpreter {
    /// The state of the run.
    pub open spec fn state(&self) -> State {
        State {
            variables: self.variables@,
            loops: loops_view(self.loops@),
            loop_stack: self.loop_stack@,
            current_line: self.current_line,
            running: self.running,
        }
    }

    /// Every open loop has the line that opened it, and its variable is
    /// assigned.
    pub open spec fn well_formed(&self) -> bool {
        &&& self.loops@.len() == self.loop_stack@.len()
        &&& forall|i: int|
            0 <= i < self.loops@.len() ==> self.variables@.contains_key(
                (#[trigger] self.loops@[i]).variable@,
            )
    }

    /// What a statement's progress amounts to, with the state that it left.
    pub open spec fn outcome(progress: Progress, st: State) -> Outcome {
        match progress {
            Progress::Request(r) => Outcome::Request(r@),
            Progress::Error(output, e) => Outcome::Error(outputs_view(output@), e@),
            Progress::Complete(output) => Outcome::Complete(outputs_view(output@), st),
        }
    }

    /// An interpreter with no program, no variables and no open loops.
    pub fn new() -> (r: Interpreter)
        ensures
            r.well_formed(),
            r.state() == (State {
                variables: Map::empty(),
                loops: Seq::empty(),
                loop_stack: Seq::empty(),
                current_line: 0,
                running: true,
            }),
            r.program@.len() == 0,
            r.replies@.len() == 0,
    {
        let r = Interpreter {
            variables: Environment::new(),
            loops: Vec::new(),
            loop_stack: Vec::new(),
            current_line: 0,
            running: true,
            program: Program::new(),
            replies: Vec::new(),
        };
        proof {
            assert(r.state().loops =~= Seq::empty());
            assert(r.state().loop_stack =~= Seq::empty());
        }
        r
    }

    /// Puts a request to the replies: see [`ask`].
    pub fn ask(&self, request: Request, at: usize) -> (r: (Evaluation, usize))
        ensures
            (r.0@, r.1 as nat) == ask(request@, self.replies@, at as nat),
    {
        if at < self.replies.len() {
            match self.replies[at] {
                Reply::Number(n) => (Evaluation::Value(Value::Number(n)), at + 1),
                Reply::Invalid => (Evaluation::Error(RuntimeError::InvalidInput), at + 1),
            }
        } else {
            (Evaluation::Request(request), at)
        }
    }

    /// The built-in function of one argument that a name stands for.
    pub fn builtin(name: &str) -> (r: Option<Builtin>)
        ensures
            r == builtin_named(name@),
    {
        if name.eq("ABS") {
            Some(Builtin::Abs)
        } else if name.eq("SQR") {
            Some(Builtin::Sqr)
        } else if name.eq("SIN") {
            Some(Builtin::Sin)
        } else if name.eq("COS") {
            Some(Builtin::Cos)
        } else if name.eq("TAN") {
            Some(Builtin::Tan)
        } else if name.eq("INT") {
            Some(Builtin::Int)
        } else {
            None
        }
    }

    /// Applies a binary operator to two values: see [`apply`].
    pub fn apply(&self, operator: &Token, left: Value, right: Value, at: usize) -> (r: (
        Evaluation,
        usize,
    ))
        ensures
            (r.0@, r.1 as nat) == apply(operator@, left@, right@, self.replies@, at as nat),
    {
        let (l, r) = match (left, right) {
            (Value::Number(l), Value::Number(r)) => (l, r),
            _ => {
                return (Evaluation::Error(RuntimeError::TypeMismatch), at);
            },
        };
        match operator {
            Token::Plus => self.ask(
                Request::Binary { operation: Operation::Add, left: l, right: r },
                at,
            ),
            Token::Minus => self.ask(
                Request::Binary { operation: Operation::Subtract, left: l, right: r },
                at,
            ),
            Token::Multiply => self.ask(
                Request::Binary { operation: Operation::Multiply, left: l, right: r },
                at,
            ),
            Token::Divide => {
                if r.is_zero() {
                    (Evaluation::Error(RuntimeError::DivisionByZero), at)
                } else {
                    self.ask(Request::Binary { operation: Operation::Divide, left: l, right: r }, at)
                }
            },
            Token::Power => self.ask(
                Request::Binary { operation: Operation::Power, left: l, right: r },
                at,
            ),
            Token::LessThan => (
                Evaluation::Value(Value::Number(Number::truth(l.less_than(r)))),
                at,
            ),
            Token::GreaterThan => (
                Evaluation::Value(Value::Number(Number::truth(l.greater_than(r)))),
                at,
            ),
            Token::Equals => (Evaluation::Value(Value::Number(Number::truth(l.equal_to(r)))), at),
            Token::LessOrEqual => (
                Evaluation::Value(Value::Number(Number::truth(l.less_or_equal(r)))),
                at,
            ),
            Token::GreaterOrEqual => (
                Evaluation::Value(Value::Number(Number::truth(l.greater_or_equal(r)))),
                at,
            ),
            Token::NotEqual => (
                Evaluation::Value(Value::Number(Number::truth(l.not_equal_to(r)))),
                at,
            ),
            _ => (Evaluation::Error(RuntimeError::TypeMismatch), at),
        }
    }

    /// Applies a built-in function to a value: see [`call`].
    pub fn call(&self, function: Builtin, argument: Value, at: usize) -> (r: (Evaluation, usize))
        ensures
            (r.0@, r.1 as nat) == call(function, argument@, self.replies@, at as nat),
    {
        match argument {
            Value::Number(n) => {
                let negative_root = match function {
                    Builtin::Sqr => n.is_negative(),
                    _ => false,
                };
                if negative_root {
                    (Evaluation::Error(RuntimeError::NegativeSquareRoot), at)
                } else {
                    self.ask(Request::Call { function, argument: n }, at)
                }
            },
            Value::String(_) => (Evaluation::Error(RuntimeError::ArgumentNotNumber(function)), at),
        }
    }

    /// Evaluates an expression with the replies from position `at` on.
    /// Returns how far it got and the position of the first reply that it
    /// has not read.
    pub fn evaluate_expression(&self, expr: &Expression, at: usize) -> (r: (Evaluation, usize))
        ensures
            (r.0@, r.1 as nat) == evaluate(expr@, self.variables@, self.replies@, at as nat),
        decreases expr,
    {
        match expr {
            Expression::Number(text) => self.ask(Request::Literal(text.clone()), at),
            Expression::String(s) => (Evaluation::Value(Value::String(s.clone())), at),
            Expression::Variable(name) => match self.variables.get(name.as_str()) {
                Some(n) => (Evaluation::Value(Value::Number(n)), at),
                None => (Evaluation::Error(RuntimeError::UndefinedVariable(name.clone())), at),
            },
            Expression::Binary { left, operator, right } => {
                let (l, after_left) = self.evaluate_expression(left, at);
                match l {
                    Evaluation::Value(lv) => {
                        let (r, after_right) = self.evaluate_expression(right, after_left);
                        match r {
                            Evaluation::Value(rv) => self.apply(operator, lv, rv, after_right),
                            _ => (r, after_right),
                        }
                    },
                    _ => (l, after_left),
                }
            },
            Expression::FunctionCall { name, arguments } => {
                proof {
                    lemma_call_view(*name, *arguments);
                }
                match Self::builtin(name.as_str()) {
                    Some(function) => {
                        if arguments.len() == 0 {
                            (Evaluation::Error(RuntimeError::MissingArgument(function)), at)
                        } else {
                            let (a, after) = self.evaluate_expression(&arguments[0], at);
                            match a {
                                Evaluation::Value(v) => self.call(function, v, after),
                                _ => (a, after),
                            }
                        }
                    },
                    None => {
                        if name.as_str().eq("RND") {
                            self.ask(Request::Random, at)
                        } else {
                            (Evaluation::Error(RuntimeError::UnknownFunction(name.clone())), at)
                        }
                    },
                }
            },
        }
    }
}

impl Interpreter {
    /// Executes a `PRINT` statement.
    pub fn execute_print(&self, expressions: &Vec<Expression>, semicolon: bool, at: usize) -> (r:
        Progress)
        ensures
            Self::outcome(r, self.state()) == print_from(
                expressions_view(expressions@),
                0,
                semicolon,
                self.state(),
                self.replies@,
                at as nat,
                Seq::empty(),
            ),
    {
        let ghost items = expressions_view(expressions@);
        let mut out: Vec<Output> = Vec::new();
        let mut cursor: usize = at;
        let mut i: usize = 0;
        proof {
            assert(outputs_view(out@) =~= Seq::<OutputView>::empty());
        }
        while i < expressions.len()
            invariant
                0 <= i <= expressions.len(),
                items == expressions_view(expressions@),
                print_from(
                    items,
                    i as int,
                    semicolon,
                    self.state(),
                    self.replies@,
                    cursor as nat,
                    outputs_view(out@),
                ) == print_from(
                    items,
                    0,
                    semicolon,
                    self.state(),
                    self.replies@,
                    at as nat,
                    Seq::empty(),
                ),
            decreases expressions.len() - i,
        {
            let ghost before = outputs_view(out@);
            if i > 0 {
                let space = Output::Text(" ".to_owned());
                out.push(space);
                proof {
                    assert(outputs_view(out@) =~= before.push(space@));
                }
            }
            let ghost spaced = outputs_view(out@);
            let (v, after) = self.evaluate_expression(&expressions[i], cursor);
            match v {
                Evaluation::Value(v) => {
                    let piece = match v {
                        Value::Number(n) => Output::Number(n),
                        Value::String(s) => Output::Text(s),
                    };
                    out.push(piece);
                    proof {
                        assert(outputs_view(out@) =~= spaced.push(piece@));
                    }
                },
                Evaluation::Request(r) => {
                    return Progress::Request(r);
                },
                Evaluation::Error(e) => {
                    return Progress::Error(out, e);
                },
            }
            cursor = after;
            i = i + 1;
        }
        if !semicolon {
            let ghost before = outputs_view(out@);
            let newline = Output::Text("\n".to_owned());
            out.push(newline);
            proof {
                assert(outputs_view(out@) =~= before.push(newline@));
            }
        }
        Progress::Complete(out)
    }

    /// The text that asks for the input of a variable.
    pub fn prompt(variable: &str) -> (r: String)
        ensures
            r@ == prompt_for(variable@),
    {
        let mut text = "Enter ".to_owned();
        text.append(variable);
        text.append(": ");
        text
    }

    /// Executes a `FOR` statement.
    pub fn execute_for(&mut self, loop_data: &ForLoop, at: usize) -> (r: Progress)
        requires
            old(self).well_formed(),
        ensures
            final(self).well_formed(),
            final(self).program == old(self).program,
            final(self).replies == old(self).replies,
            Self::outcome(r, final(self).state()) == execute_for(
                loop_data@,
                old(self).state(),
                old(self).replies@,
                at as nat,
            ),
            !(r is Complete) ==> final(self).state() == old(self).state(),
    {
        let (start, after_start) = self.evaluate_expression(&loop_data.start, at);
        let start = match start {
            Evaluation::Value(v) => v,
            Evaluation::Request(r) => {
                return Progress::Request(r);
            },
            Evaluation::Error(e) => {
                return Self::failed(e);
            },
        };
        let (end, after_end) = self.evaluate_expression(&loop_data.end, after_start);
        let end = match end {
            Evaluation::Value(v) => v,
            Evaluation::Request(r) => {
                return Progress::Request(r);
            },
            Evaluation::Error(e) => {
                return Self::failed(e);
            },
        };
        let (step, after_step) = self.evaluate_expression(&loop_data.step, after_end);
        let step = match step {
            Evaluation::Value(v) => v,
            Evaluation::Request(r) => {
                return Progress::Request(r);
            },
            Evaluation::Error(e) => {
                return Self::failed(e);
            },
        };
        match (start, end, step) {
            (Value::Number(s), Value::Number(_), Value::Number(_)) => {
                let ghost before = *self;
                let copy = loop_data.clone();
                self.variables.insert(loop_data.variable.clone(), s);
                self.loops.push(copy);
                self.loop_stack.push(self.current_line);
                proof {
                    assert(loops_view(self.loops@) =~= loops_view(before.loops@).push(loop_data@));
                    assert forall|i: int| 0 <= i < self.loops@.len() implies self.variables@.contains_key(
                        (#[trigger] self.loops@[i]).variable@,
                    ) by {
                        if i < before.loops@.len() {
                            assert(self.loops@[i] == before.loops@[i]);
                        }
                    }
                }
                Self::done()
            },
            _ => Self::failed(RuntimeError::LoopBoundsNotNumbers),
        }
    }

    /// A failure without output.
    fn failed(e: RuntimeError) -> (r: Progress)
        ensures
            r matches Progress::Error(output, error) && output@.len() == 0 && error == e,
            forall|st: State| #[trigger] Self::outcome(r, st) == Outcome::Error(Seq::empty(), e@),
    {
        let r = Progress::Error(Vec::new(), e);
        proof {
            assert(outputs_view(Seq::<Output>::empty()) =~= Seq::<OutputView>::empty());
        }
        r
    }

    /// Completion without output.
    fn done() -> (r: Progress)
        ensures
            r matches Progress::Complete(output) && output@.len() == 0,
            forall|st: State| #[trigger] Self::outcome(r, st) == Outcome::Complete(Seq::empty(), st),
    {
        let r = Progress::Complete(Vec::new());
        proof {
            assert(outputs_view(Seq::<Output>::empty()) =~= Seq::<OutputView>::empty());
        }
        r
    }

    /// Executes a `NEXT` statement.
    pub fn execute_next(&mut self, variable: &String, at: usize) -> (r: Progress)
        requires
            old(self).well_formed(),
        ensures
            final(self).well_formed(),
            final(self).program == old(self).program,
            final(self).replies == old(self).replies,
            Self::outcome(r, final(self).state()) == execute_next(
                variable@,
                old(self).state(),
                old(self).replies@,
                at as nat,
            ),
            !(r is Complete) ==> final(self).state() == old(self).state(),
    {
        if self.loops.len() == 0 {
            return Self::failed(RuntimeError::NextWithoutFor);
        }
        let top = &self.loops[self.loops.len() - 1];
        proof {
            assert(loops_view(self.loops@).last() == top@);
        }
        if !top.variable.as_str().eq(variable.as_str()) {
            return Self::failed(
                RuntimeError::LoopMismatch {
                    next: variable.clone(),
                    innermost: top.variable.clone(),
                },
            );
        }
        let current = match self.variables.get(variable.as_str()) {
            Some(n) => n,
            None => unreached(),
        };
        let (step, after_step) = self.evaluate_expression(&top.step, at);
        let step = match step {
            Evaluation::Value(Value::Number(n)) => n,
            Evaluation::Value(Value::String(_)) => {
                return Self::failed(RuntimeError::StepNotNumber);
            },
            Evaluation::Request(r) => {
                return Progress::Request(r);
            },
            Evaluation::Error(e) => {
                return Self::failed(e);
            },
        };
        let (sum, after_sum) = self.ask(
            Request::Binary { operation: Operation::Add, left: current, right: step },
            after_step,
        );
        let next = match sum {
            Evaluation::Value(Value::Number(n)) => n,
            Evaluation::Value(Value::String(_)) => {
                return Self::failed(RuntimeError::TypeMismatch);
            },
            Evaluation::Request(r) => {
                return Progress::Request(r);
            },
            Evaluation::Error(e) => {
                return Self::failed(e);
            },
        };
        let (end, after_end) = self.evaluate_expression(&top.end, after_sum);
        let end = match end {
            Evaluation::Value(Value::Number(n)) => n,
            Evaluation::Value(Value::String(_)) => {
                return Self::failed(RuntimeError::EndNotNumber);
            },
            Evaluation::Request(r) => {
                return Progress::Request(r);
            },
            Evaluation::Error(e) => {
                return Self::failed(e);
            },
        };
        let ghost before = *self;
        if (step.is_positive() && next.less_or_equal(end)) || (step.is_negative()
            && next.greater_or_equal(end)) {
            self.variables.insert(variable.clone(), next);
            self.current_line = self.loop_stack[self.loop_stack.len() - 1];
        } else {
            self.loops.pop();
            self.loop_stack.pop();
            proof {
                assert(loops_view(self.loops@) =~= loops_view(before.loops@).drop_last());
                assert(self.loop_stack@ =~= before.loop_stack@.drop_last());
            }
        }
        Self::done()
    }

    /// Executes a statement with the replies from position `at` on. The
    /// interpreter changes only if the statement is done.
    pub fn execute_statement(&mut self, statement: &Statement, at: usize) -> (r: Progress)
        requires
            old(self).well_formed(),
        ensures
            final(self).well_formed(),
            final(self).program == old(self).program,
            final(self).replies == old(self).replies,
            Self::outcome(r, final(self).state()) == execute(
                statement@,
                old(self).state(),
                old(self).replies@,
                at as nat,
            ),
            !(r is Complete) ==> final(self).state() == old(self).state(),
        decreases statement,
    {
        match statement {
            Statement::Print { expressions, semicolon } => self.execute_print(
                expressions,
                *semicolon,
                at,
            ),
            Statement::Let { variable, expression } => {
                let (v, after) = self.evaluate_expression(expression, at);
                match v {
                    Evaluation::Value(Value::Number(n)) => {
                        self.variables.insert(variable.clone(), n);
                        Self::done()
                    },
                    Evaluation::Value(Value::String(_)) => Self::failed(
                        RuntimeError::StringAssignment,
                    ),
                    Evaluation::Request(r) => Progress::Request(r),
                    Evaluation::Error(e) => Self::failed(e),
                }
            },
            Statement::If { condition, then_branch, else_branch } => {
                let (v, after) = self.evaluate_expression(condition, at);
                match v {
                    Evaluation::Value(Value::Number(n)) => {
                        if !n.is_zero() {
                            self.execute_statement(then_branch, after)
                        } else {
                            match else_branch {
                                Some(b) => self.execute_statement(b, after),
                                None => Self::done(),
                            }
                        }
                    },
                    Evaluation::Value(Value::String(_)) => Self::failed(
                        RuntimeError::ConditionNotNumber,
                    ),
                    Evaluation::Request(r) => Progress::Request(r),
                    Evaluation::Error(e) => Self::failed(e),
                }
            },
            Statement::Input { variable } => {
                let (v, after) = self.ask(
                    Request::Input { prompt: Self::prompt(variable.as_str()) },
                    at,
                );
                match v {
                    Evaluation::Value(Value::Number(n)) => {
                        self.variables.insert(variable.clone(), n);
                        Self::done()
                    },
                    Evaluation::Value(Value::String(_)) => Self::failed(
                        RuntimeError::InvalidInput,
                    ),
                    Evaluation::Request(r) => Progress::Request(r),
                    Evaluation::Error(e) => Self::failed(e),
                }
            },
            Statement::For { loop_data } => self.execute_for(loop_data, at),
            Statement::Next { variable } => self.execute_next(variable, at),
            Statement::End => {
                self.running = false;
                Self::done()
            },
            Statement::Goto(_) => Self::failed(RuntimeError::NotImplemented),
            Statement::Rem(_) => Self::failed(RuntimeError::NotImplemented),
        }
    }

    /// Takes one step: see [`step`].
    pub fn step(&mut self) -> (r: Step)
        requires
            old(self).well_formed(),
        ensures
            final(self).well_formed(),
            final(self).program == old(self).program,
            (StepView {
                state: final(self).state(),
                replies: final(self).replies@,
                output: outputs_view(r.output@),
                status: r.status@,
            }) == step(old(self).program@, old(self).state(), old(self).replies@),
    {
        proof {
            assert(outputs_view(Seq::<Output>::empty()) =~= Seq::<OutputView>::empty());
        }
        if !self.running || self.current_line >= self.program.lines.len() {
            return Step { output: Vec::new(), status: Status::Finished };
        }
        let line = self.current_line;
        let statement = self.program.lines[line].statement.clone();
        match self.execute_statement(&statement, 0) {
            Progress::Request(r) => Step { output: Vec::new(), status: Status::Request(r) },
            Progress::Error(output, error) => Step {
                output,
                status: Status::Failed { line, error },
            },
            Progress::Complete(output) => {
                if self.current_line < usize::MAX {
                    self.current_line = self.current_line + 1;
                }
                self.replies = Vec::new();
                Step { output, status: Status::Continue }
            },
        }
    }

    /// Makes `program` the program to run, from its first line, with no
    /// replies. Variables and open loops stay as they are.
    pub fn load(&mut self, program: Program)
        requires
            old(self).well_formed(),
        ensures
            final(self).well_formed(),
            final(self).program == program,
            final(self).replies@ == Seq::<Reply>::empty(),
            final(self).state() == restarted(old(self).state()),
    {
        self.program = program;
        self.current_line = 0;
        self.running = true;
        self.replies = Vec::new();
    }

    /// Adds the host's reply to the request that the last step returned.
    pub fn reply(&mut self, reply: Reply)
        requires
            old(self).well_formed(),
        ensures
            final(self).well_formed(),
            final(self).program == old(self).program,
            final(self).state() == old(self).state(),
            final(self).replies@ == old(self).replies@.push(reply),
    {
        self.replies.push(reply);
    }
}

impl Status {
    /// Whether a statement is done and the next step can follow.
    pub fn is_continue(&self) -> (r: bool)
        ensures
            r == (self@ is Continue),
    {
        match self {
            Status::Continue => true,
            _ => false,
        }
    }
}

impl Interpreter {
    /// What the interpreter and a step's result say together.
    pub open spec fn reached(&self, r: Step) -> StepView {
        StepView {
            state: self.state(),
            replies: self.replies@,
            output: outputs_view(r.output@),
            status: r.status@,
        }
    }

    /// Takes steps until one does not end in `Continue`: until the program
    /// ends, fails or needs the host. Returns the output of all of them and
    /// how the last one ended.
    pub fn run(&mut self) -> (r: Step)
        requires
            old(self).well_formed(),
        ensures
            final(self).well_formed(),
            final(self).program == old(self).program,
            !(r.status@ is Continue),
            exists|k: nat|
                final(self).reached(r) == #[trigger] run(
                    old(self).program@,
                    old(self).state(),
                    old(self).replies@,
                    k,
                ),
    {
        let mut r = self.step();
        let ghost k: nat = 0;
        while r.status.is_continue()
            invariant
                self.well_formed(),
                self.program == old(self).program,
                r.status@ is Continue ==> self.replies@.len() == 0,
                self.reached(r) == run(old(self).program@, old(self).state(), old(self).replies@, k),
            decreases
                    if r.status@ is Continue {
                        1 + if self.current_line <= self.program.lines@.len() {
                            self.program.lines@.len() - self.current_line
                        } else {
                            0
                        }
                    } else {
                        0
                    },
        {
            let ghost before = self.reached(r);
            proof {
                if self.running && self.current_line < self.program.lines@.len() {
                    lemma_no_jump_without_reply(
                        self.program@[self.current_line as int].statement,
                        self.state(),
                        self.replies@,
                        0,
                    );
                }
            }
            let ghost line = self.current_line;
            let ghost count = self.program.lines@.len();
            let mut next = self.step();
            let ghost last = self.reached(next);
            proof {
                assert(self.program@.len() == count);
                assert(count == self.program.lines.len());
                assert(last == step(old(self).program@, before.state, before.replies));
                if next.status@ is Continue {
                    assert(line < count);
                    assert(self.current_line == line + 1);
                }
            }
            r.output.append(&mut next.output);
            r.status = next.status;
            proof {
                k = k + 1;
                assert(outputs_view(r.output@) =~= before.output + last.output);
            }
        }
        proof {
            assert(self.reached(r) == run(
                old(self).program@,
                old(self).state(),
                old(self).replies@,
                k,
            ));
        }
        r
    }

    /// Runs a program from its first line: see [`Interpreter::load`] and
    /// [`Interpreter::run`].
    pub fn execute_program(&mut self, program: Program) -> (r: Step)
        requires
            old(self).well_formed(),
        ensures
            final(self).well_formed(),
            final(self).program == program,
            !(r.status@ is Continue),
            exists|k: nat|
                final(self).reached(r) == #[trigger] run(
                    program@,
                    restarted(old(self).state()),
                    Seq::empty(),
                    k,
                ),
    {
        self.load(program);
        self.run()
    }

    /// Goes on with the host's reply to the request that the last run ended
    /// in: see [`Interpreter::reply`] and [`Interpreter::run`].
    pub fn resume(&mut self, reply: Reply) -> (r: Step)
        requires
            old(self).well_formed(),
        ensures
            final(self).well_formed(),
            final(self).program == old(self).program,
            !(r.status@ is Continue),
            exists|k: nat|
                final(self).reached(r) == #[trigger] run(
                    old(self).program@,
                    old(self).state(),
                    old(self).replies@.push(reply),
                    k,
                ),
    {
        self.reply(reply);
        self.run()
    }

    /// Goes on with a random number in [0, 1) for reply, as `RND` asks:
    /// see [`Interpreter::resume`].
    pub fn resume_with_random(&mut self) -> (r: Step)
        requires
            old(self).well_formed(),
        ensures
            final(self).well_formed(),
            final(self).program == old(self).program,
            !(r.status@ is Continue),
            exists|n: Number, k: nat|
                !n.nan() && !n.sign() && n.lt(Number { bits: ONE_BITS }) && final(self).reached(r)
                    == #[trigger] run(
                    old(self).program@,
                    old(self).state(),
                    old(self).replies@.push(Reply::Number(n)),
                    k,
                ),
    {
        let n = random_number();
        self.resume(Reply::Number(n))
    }
}

} // verus!
