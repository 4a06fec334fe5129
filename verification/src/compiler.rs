//! The code generator: a program to Rust source text.
//!
//! The generated program keeps its variables in a map from names to
//! numbers. A numeric literal is written as it stands, with what it lacks
//! to be a floating-point literal. A `FOR` loop becomes a `while` loop over
//! a local variable that counts up by `1.0`, whatever step the loop states.
//! `IF` is not compiled.

use vstd::prelude::*;
use crate::text::{chars_of, decimal, decimal_text};
use crate::token::{Token, TokenView};
use crate::ast::{
    Expression, ExpressionView, Statement, StatementView, Program, LineView, expressions_view,
    lemma_call_view,
};

verus! {

/// Why a program cannot be compiled.
#[derive(Clone, Copy, Debug, PartialEq, Eq, Structural)]
pub enum CompileError {
    /// `IF`, or a statement that the language declares and does not define.
    UnsupportedStatement,
    /// A token that is no binary operator stands in an operator's place.
    UnsupportedOperator,
    /// A call of a function that is not built in.
    UnsupportedFunction,
    /// A call of a built-in function without an argument.
    MissingArgument,
    /// A `NEXT` with no `FOR` open before it.
    UnmatchedNext,
    /// More loops are nested than the indentation can count.
    NestingTooDeep,
}

/// What an error says in words.
pub open spec fn error_message(e: CompileError) -> Seq<char> {
    match e {
        CompileError::UnsupportedStatement => "Statement not implemented for compilation"@,
        CompileError::UnsupportedOperator => "Operator not implemented for compilation"@,
        CompileError::UnsupportedFunction => "Function not implemented for compilation"@,
        CompileError::MissingArgument => "Function called without an argument"@,
        CompileError::UnmatchedNext => "NEXT without FOR"@,
        CompileError::NestingTooDeep => "Loops nested too deep"@,
    }
}

impl CompileError {
    /// The error in words.
    pub fn message(self) -> (r: &'static str)
        ensures
            r@ == error_message(self),
    {
        match self {
            CompileError::UnsupportedStatement => "Statement not implemented for compilation",
            CompileError::UnsupportedOperator => "Operator not implemented for compilation",
            CompileError::UnsupportedFunction => "Function not implemented for compilation",
            CompileError::MissingArgument => "Function called without an argument",
            CompileError::UnmatchedNext => "NEXT without FOR",
            CompileError::NestingTooDeep => "Loops nested too deep",
        }
    }
}

/// Whether text holds a decimal point.
pub open spec fn has_point(literal: Seq<char>) -> bool {
    exists|i: int| 0 <= i < literal.len() && literal[i] == '.'
}

/// A numeric literal as a floating-point literal of the generated program:
/// the literal as it stands, followed by `.0` if it has no decimal point
/// and by `0` if it ends in one.
pub open spec fn literal_code(literal: Seq<char>) -> Seq<char> {
    if !has_point(literal) {
        literal + ".0"@
    } else if literal.last() == '.' {
        literal + "0"@
    } else {
        literal
    }
}

/// The indentation of a line at a nesting depth: four spaces for each level.
pub open spec fn indentation(depth: nat) -> Seq<char> {
    Seq::new(4 * depth, |i: int| ' ')
}

/// The text before, between and after the operands of a binary operator.
pub open spec fn binary_shape(operator: TokenView) -> Option<(Seq<char>, Seq<char>, Seq<char>)> {
    match operator {
        TokenView::Plus => Some(("("@, " + "@, ")"@)),
        TokenView::Minus => Some(("("@, " - "@, ")"@)),
        TokenView::Multiply => Some(("("@, " * "@, ")"@)),
        TokenView::Divide => Some(("("@, " / "@, ")"@)),
        TokenView::Power => Some(("("@, ").powf("@, ")"@)),
        TokenView::LessThan => Some(("if "@, " < "@, " { 1.0 } else { 0.0 }"@)),
        TokenView::GreaterThan => Some(("if "@, " > "@, " { 1.0 } else { 0.0 }"@)),
        TokenView::Equals => Some(("if "@, " == "@, " { 1.0 } else { 0.0 }"@)),
        TokenView::LessOrEqual => Some(("if "@, " <= "@, " { 1.0 } else { 0.0 }"@)),
        TokenView::GreaterOrEqual => Some(("if "@, " >= "@, " { 1.0 } else { 0.0 }"@)),
        TokenView::NotEqual => Some(("if "@, " != "@, " { 1.0 } else { 0.0 }"@)),
        _ => None,
    }
}

/// The method call that a built-in function of one argument becomes.
pub open spec fn function_suffix(name: Seq<char>) -> Option<Seq<char>> {
    if name == "ABS"@ {
        Some(").abs()"@)
    } else if name == "SQR"@ {
        Some(").sqrt()"@)
    } else if name == "SIN"@ {
        Some(").sin()"@)
    } else if name == "COS"@ {
        Some(").cos()"@)
    } else if name == "TAN"@ {
        Some(").tan()"@)
    } else if name == "INT"@ {
        Some(").floor()"@)
    } else {
        None
    }
}

/// The source text of an expression.
///
/// Both operands of a binary operator, and all arguments of a call, are
/// compiled before the operator or the function is looked at, so a
/// failure inside them comes first. A call of a built-in function uses its
/// first argument; `RND` uses none.
pub open spec fn expression_code(e: ExpressionView) -> Result<Seq<char>, CompileError>
    decreases e, 0nat,
{
    match e {
        ExpressionView::Number(literal) => Ok(literal_code(literal)),
        ExpressionView::String(s) => Ok("\""@ + s + "\""@),
        ExpressionView::Variable(name) => Ok(
            "*variables.get(\""@ + name + "\").unwrap()"@,
        ),
        ExpressionView::Binary { left, operator, right } => match expression_code(*left) {
            Err(e) => Err(e),
            Ok(l) => match expression_code(*right) {
                Err(e) => Err(e),
                Ok(r) => match binary_shape(operator) {
                    Some((before, between, after)) => Ok(
                        before + l + between + r + after,
                    ),
                    None => Err(CompileError::UnsupportedOperator),
                },
            },
        },
        ExpressionView::FunctionCall { name, arguments } => match first_failure(arguments, 0) {
            Some(e) => Err(e),
            None => match function_suffix(name) {
                Some(suffix) => if arguments.len() == 0 {
                    Err(CompileError::MissingArgument)
                } else {
                    match expression_code(arguments[0]) {
                        Ok(argument) => Ok("("@ + argument + suffix),
                        Err(e) => Err(e),
                    }
                },
                None => if name == "RND"@ {
                    Ok("rand::random::<f64>()"@)
                } else {
                    Err(CompileError::UnsupportedFunction)
                },
            },
        },
    }
}

/// The failure of the first expression from position `i` on that cannot be
/// compiled.
pub open spec fn first_failure(expressions: Seq<ExpressionView>, i: int) -> Option<CompileError>
    decreases expressions, expressions.len() - i,
{
    if !(0 <= i < expressions.len()) {
        None
    } else {
        match expression_code(expressions[i]) {
            Err(e) => Some(e),
            Ok(_) => first_failure(expressions, i + 1),
        }
    }
}

/// Expressions that can be compiled do not bear on the first failure.
pub proof fn lemma_first_failure_skips(expressions: Seq<ExpressionView>, i: int, j: int)
    requires
        0 <= i <= j <= expressions.len(),
        forall|k: int| i <= k < j ==> expression_code(#[trigger] expressions[k]) is Ok,
    ensures
        first_failure(expressions, i) == first_failure(expressions, j),
    decreases j - i,
{
    if i < j {
        lemma_first_failure_skips(expressions, i + 1, j);
    }
}

/// A line of source text at a nesting depth.
pub open spec fn line(depth: nat, body: Seq<char>) -> Seq<char> {
    indentation(depth) + body
}

/// The source text of a `PRINT` statement from its expression `i` on, after
/// the text `acc`: one `print!` for each expression, and one that writes a
/// space before every expression but the first.
pub open spec fn print_code(
    expressions: Seq<ExpressionView>,
    i: int,
    depth: nat,
    acc: Seq<char>,
) -> Result<Seq<char>, CompileError>
    decreases expressions.len() - i,
{
    if !(0 <= i < expressions.len()) {
        Ok(acc)
    } else {
        match expression_code(expressions[i]) {
            Err(e) => Err(e),
            Ok(c) => print_code(
                expressions,
                i + 1,
                depth,
                acc + (if i > 0 {
                    line(depth, "print!(\" \");\n"@)
                } else {
                    Seq::empty()
                }) + line(depth, "print!(\"{}\", "@ + c + ");\n"@),
            ),
        }
    }
}

/// The source text that reads a number from the console into a variable.
pub open spec fn input_code(variable: Seq<char>, depth: nat) -> Seq<char> {
    line(depth, "print!(\"Enter "@ + variable + ": \");\n"@) + line(
        depth,
        "io::stdout().flush().unwrap();\n"@,
    ) + line(depth, "let mut input = String::new();\n"@) + line(
        depth,
        "io::stdin().read_line(&mut input).unwrap();\n"@,
    ) + line(
        depth,
        "variables.insert(\""@ + variable
            + "\".to_string(), input.trim().parse::<f64>().unwrap());\n"@,
    )
}

/// The source text of a statement at a nesting depth, and the depth after
/// it. `FOR` opens a block and `NEXT` closes one.
pub open spec fn statement_code(s: StatementView, depth: nat) -> Result<
    (Seq<char>, nat),
    CompileError,
> {
    match s {
        StatementView::Print { expressions, semicolon } => match print_code(
            expressions,
            0,
            depth,
            Seq::empty(),
        ) {
            Err(e) => Err(e),
            Ok(c) => Ok(
                (
                    if semicolon {
                        c
                    } else {
                        c + line(depth, "println!();\n"@)
                    },
                    depth,
                ),
            ),
        },
        StatementView::Let { variable, expression } => match expression_code(expression) {
            Err(e) => Err(e),
            Ok(c) => Ok(
                (
                    line(
                        depth,
                        "variables.insert(\""@ + variable + "\".to_string(), "@
                            + c + ");\n"@,
                    ),
                    depth,
                ),
            ),
        },
        StatementView::Input { variable } => Ok((input_code(variable, depth), depth)),
        StatementView::For { loop_data } => match expression_code(loop_data.start) {
            Err(e) => Err(e),
            Ok(start) => match expression_code(loop_data.end) {
                Err(e) => Err(e),
                Ok(end) => match expression_code(loop_data.step) {
                    Err(e) => Err(e),
                    Ok(_) => if depth >= usize::MAX {
                        Err(CompileError::NestingTooDeep)
                    } else {
                        Ok(
                            (
                                line(
                                    depth,
                                    "let mut "@ + loop_data.variable + " = "@
                                        + start + ";\n"@,
                                ) + line(
                                    depth,
                                    "while "@ + loop_data.variable + " <= "@
                                        + end + " {\n"@,
                                ) + line(
                                    depth + 1,
                                    "variables.insert(\""@ + loop_data.variable
                                        + "\".to_string(), "@ + loop_data.variable + ");\n"@,
                                ),
                                depth + 1,
                            ),
                        )
                    },
                },
            },
        },
        StatementView::Next { variable } => if depth == 0 {
            Err(CompileError::UnmatchedNext)
        } else {
            Ok(
                (
                    line(depth, variable + " += 1.0;\n"@) + line(
                        (depth - 1) as nat,
                        "}\n"@,
                    ),
                    (depth - 1) as nat,
                ),
            )
        },
        StatementView::End => Ok((line(depth, "return;\n"@), depth)),
        _ => Err(CompileError::UnsupportedStatement),
    }
}

/// The source text of the lines of a program from line `i` on, after the
/// text `acc`, and the depth after the last.
pub open spec fn lines_code(lines: Seq<LineView>, i: int, depth: nat, acc: Seq<char>) -> Result<
    (Seq<char>, nat),
    CompileError,
>
    decreases lines.len() - i,
{
    if !(0 <= i < lines.len()) {
        Ok((acc, depth))
    } else {
        match statement_code(lines[i].statement, depth) {
            Err(e) => Err(e),
            Ok((c, after)) => lines_code(lines, i + 1, after, acc + c),
        }
    }
}

/// The beginning of every generated program: the imports, the head of
/// `main`, and the declaration of the variable map.
pub open spec fn program_head() -> Seq<char> {
    "use std::collections::HashMap;\n"@ + "use std::io::{self, Write};\n\n"@ + "fn main() {\n"@
        + line(1, "let mut variables: HashMap<String, f64> = HashMap::new();\n"@)
}

/// The source text of a program: its beginning, the statements from depth
/// 1, and the brace that closes `main`. Every `NEXT` must have a `FOR`
/// before it, or the last closing brace has no depth to close.
pub open spec fn program_code(lines: Seq<LineView>) -> Result<Seq<char>, CompileError> {
    match lines_code(lines, 0, 1, program_head()) {
        Err(e) => Err(e),
        Ok((c, depth)) => if depth == 0 {
            Err(CompileError::UnmatchedNext)
        } else {
            Ok(c + "}\n"@ + "\n"@)
        },
    }
}

/// Adds text to the end of generated code.
fn emit(code: &mut String, s: &str)
    ensures
        final(code)@ == old(code)@ + s@,
{
    code.append(s);
}

/// Adds generated code to the end of generated code.
fn emit_all(code: &mut String, other: String)
    ensures
        final(code)@ == old(code)@ + other@,
{
    code.append(other.as_str());
}

/// Writes a numeric literal as a floating-point literal: see
/// [`literal_code`].
pub fn compile_literal(literal: &str) -> (code: String)
    ensures
        code@ == literal_code(literal@),
{
    let chars = chars_of(literal);
    let mut point = false;
    let mut i: usize = 0;
    while i < chars.len()
        invariant
            0 <= i <= chars.len(),
            chars@ == literal@,
            point == exists|k: int| 0 <= k < i && chars@[k] == '.',
        decreases chars.len() - i,
    {
        if chars[i] == '.' {
            point = true;
        }
        i = i + 1;
    }
    let mut code = literal.to_owned();
    if !point {
        code.append(".0");
    } else if chars[chars.len() - 1] == '.' {
        code.append("0");
    }
    code
}

/// The compilation context: the depth at which the next line is indented,
/// and the number of temporary names handed out.
pub struct Compiler {
    pub temp_vars: usize,
    pub indent_level: usize,
}

/// What a compilation returned, as the source text that it stands for.
pub open spec fn code_result(r: Result<String, CompileError>) -> Result<
    Seq<char>,
    CompileError,
> {
    match r {
        Ok(code) => Ok(code@),
        Err(e) => Err(e),
    }
}

impl Compiler {
    /// A fresh context: depth 0, no temporary names.
    pub fn new() -> (r: Compiler)
        ensures
            r.temp_vars == 0,
            r.indent_level == 0,
    {
        Compiler { temp_vars: 0, indent_level: 0 }
    }

    /// The indentation at the current depth.
    pub fn indent(&self) -> (r: String)
        ensures
            r@ == indentation(self.indent_level as nat),
    {
        let mut r = String::new();
        let mut i: usize = 0;
        proof {
            assert(r@ =~= indentation(0));
        }
        while i < self.indent_level
            invariant
                0 <= i <= self.indent_level,
                r@ == indentation(i as nat),
            decreases self.indent_level - i,
        {
            r.push(' ');
            r.push(' ');
            r.push(' ');
            r.push(' ');
            i = i + 1;
            proof {
                assert(r@ =~= indentation(i as nat));
            }
        }
        r
    }

    /// A new temporary name: `temp_` and the number of names handed out,
    /// this one included.
    pub fn next_temp(&mut self) -> (r: String)
        requires
            old(self).temp_vars < usize::MAX,
        ensures
            final(self).temp_vars == old(self).temp_vars + 1,
            final(self).indent_level == old(self).indent_level,
            r@ == "temp_"@ + decimal(final(self).temp_vars as nat),
    {
        self.temp_vars = self.temp_vars + 1;
        let mut r = "temp_".to_owned();
        let digits = decimal_text(self.temp_vars);
        r.append(digits.as_str());
        r
    }

    /// Adds the indentation at the current depth to generated code.
    fn emit_indent(&self, code: &mut String)
        ensures
            final(code)@ == old(code)@ + indentation(self.indent_level as nat),
    {
        code.append(self.indent().as_str());
    }

    /// The text before, between and after the operands of a binary operator.
    fn shape(operator: &Token) -> (r: Option<(&'static str, &'static str, &'static str)>)
        ensures
            match r {
                Some((a, b, c)) => binary_shape(operator@) == Some((a@, b@, c@)),
                None => binary_shape(operator@) is None,
            },
    {
        match operator {
            Token::Plus => Some(("(", " + ", ")")),
            Token::Minus => Some(("(", " - ", ")")),
            Token::Multiply => Some(("(", " * ", ")")),
            Token::Divide => Some(("(", " / ", ")")),
            Token::Power => Some(("(", ").powf(", ")")),
            Token::LessThan => Some(("if ", " < ", " { 1.0 } else { 0.0 }")),
            Token::GreaterThan => Some(("if ", " > ", " { 1.0 } else { 0.0 }")),
            Token::Equals => Some(("if ", " == ", " { 1.0 } else { 0.0 }")),
            Token::LessOrEqual => Some(("if ", " <= ", " { 1.0 } else { 0.0 }")),
            Token::GreaterOrEqual => Some(("if ", " >= ", " { 1.0 } else { 0.0 }")),
            Token::NotEqual => Some(("if ", " != ", " { 1.0 } else { 0.0 }")),
            _ => None,
        }
    }

    /// The method call that a built-in function of one argument becomes.
    fn suffix(name: &str) -> (r: Option<&'static str>)
        ensures
            match r {
                Some(s) => function_suffix(name@) == Some(s@),
                None => function_suffix(name@) is None,
            },
    {
        if name.eq("ABS") {
            Some(").abs()")
        } else if name.eq("SQR") {
            Some(").sqrt()")
        } else if name.eq("SIN") {
            Some(").sin()")
        } else if name.eq("COS") {
            Some(").cos()")
        } else if name.eq("TAN") {
            Some(").tan()")
        } else if name.eq("INT") {
            Some(").floor()")
        } else {
            None
        }
    }

    /// Compiles an expression. The context stays as it is.
    pub fn compile_expression(&mut self, expr: &Expression) -> (r: Result<
        String,
        CompileError,
    >)
        ensures
            *final(self) == *old(self),
            code_result(r) == expression_code(expr@),
        decreases expr,
    {
        let mut code: String = String::new();
        proof {
            assert(code@ =~= Seq::<char>::empty());
        }
        match expr {
            Expression::Number(literal) => Ok(compile_literal(literal.as_str())),
            Expression::String(s) => {
                emit(&mut code, "\"");
                emit(&mut code, s.as_str());
                emit(&mut code, "\"");
                proof {
                    assert(code@ =~= "\""@ + s@ + "\""@);
                }
                Ok(code)
            },
            Expression::Variable(name) => {
                emit(&mut code, "*variables.get(\"");
                emit(&mut code, name.as_str());
                emit(&mut code, "\").unwrap()");
                proof {
                    assert(code@ =~= "*variables.get(\""@ + name@ + "\").unwrap()"@);
                }
                Ok(code)
            },
            Expression::Binary { left, operator, right } => {
                let l = match self.compile_expression(left) {
                    Ok(c) => c,
                    Err(e) => {
                        return Err(e);
                    },
                };
                let r = match self.compile_expression(right) {
                    Ok(c) => c,
                    Err(e) => {
                        return Err(e);
                    },
                };
                let (before, between, after) = match Self::shape(operator) {
                    Some(parts) => parts,
                    None => {
                        return Err(CompileError::UnsupportedOperator);
                    },
                };
                let ghost lc = l@;
                let ghost rc = r@;
                emit(&mut code, before);
                emit_all(&mut code, l);
                emit(&mut code, between);
                emit_all(&mut code, r);
                emit(&mut code, after);
                proof {
                    assert(code@ =~= before@ + lc + between@ + rc + after@);
                }
                Ok(code)
            },
            Expression::FunctionCall { name, arguments } => {
                proof {
                    lemma_call_view(*name, *arguments);
                }
                let ghost items = expressions_view(arguments@);
                let mut first: String = String::new();
                let mut i: usize = 0;
                while i < arguments.len()
                    invariant
                        0 <= i <= arguments.len(),
                        *self == *old(self),
                        items == expressions_view(arguments@),
                        expr matches Expression::FunctionCall { arguments: a, .. } && a
                            == arguments,
                        expr@ == (ExpressionView::FunctionCall { name: name@, arguments: items }),
                        forall|k: int| 0 <= k < i ==> expression_code(#[trigger] items[k]) is Ok,
                        i > 0 ==> Ok::<Seq<char>, CompileError>(first@)
                            == expression_code(items[0]),
                    decreases arguments.len() - i,
                {
                    match self.compile_expression(&arguments[i]) {
                        Ok(c) => {
                            if i == 0 {
                                first = c;
                            }
                        },
                        Err(e) => {
                            proof {
                                lemma_first_failure_skips(items, 0, i as int);
                                assert(items[i as int] == arguments@[i as int]@);
                                assert(first_failure(items, i as int) == Some(e));
                            }
                            return Err(e);
                        },
                    }
                    i = i + 1;
                }
                proof {
                    lemma_first_failure_skips(items, 0, items.len() as int);
                }
                match Self::suffix(name.as_str()) {
                    Some(suffix) => {
                        if arguments.len() == 0 {
                            Err(CompileError::MissingArgument)
                        } else {
                            let ghost fc = first@;
                            emit(&mut code, "(");
                            emit_all(&mut code, first);
                            emit(&mut code, suffix);
                            proof {
                                assert(code@ =~= "("@ + fc + suffix@);
                            }
                            Ok(code)
                        }
                    },
                    None => {
                        if name.as_str().eq("RND") {
                            emit(&mut code, "rand::random::<f64>()");
                            proof {
                                assert(code@ =~= "rand::random::<f64>()"@);
                            }
                            Ok(code)
                        } else {
                            Err(CompileError::UnsupportedFunction)
                        }
                    },
                }
            },
        }
    }
}

/// What the compilation of a statement returned and the depth that it
/// left, as source text and depth.
pub open spec fn statement_result(r: Result<String, CompileError>, depth: usize) -> Result<
    (Seq<char>, nat),
    CompileError,
> {
    match r {
        Ok(code) => Ok((code@, depth as nat)),
        Err(e) => Err(e),
    }
}

impl Compiler {
    /// Compiles a `PRINT` statement at the current depth.
    fn compile_print(&mut self, expressions: &Vec<Expression>, semicolon: bool) -> (r: Result<
        String,
        CompileError,
    >)
        ensures
            *final(self) == *old(self),
            statement_result(r, final(self).indent_level) == statement_code(
                StatementView::Print { expressions: expressions_view(expressions@), semicolon },
                old(self).indent_level as nat,
            ),
    {
        let ghost items = expressions_view(expressions@);
        let ghost depth = self.indent_level as nat;
        let mut code: String = String::new();
        let mut i: usize = 0;
        proof {
            assert(code@ =~= Seq::<char>::empty());
        }
        while i < expressions.len()
            invariant
                0 <= i <= expressions.len(),
                *self == *old(self),
                depth == self.indent_level as nat,
                items == expressions_view(expressions@),
                print_code(items, i as int, depth, code@) == print_code(
                    items,
                    0,
                    depth,
                    Seq::empty(),
                ),
            decreases expressions.len() - i,
        {
            let ghost before = code@;
            let c = match self.compile_expression(&expressions[i]) {
                Ok(c) => c,
                Err(e) => {
                    return Err(e);
                },
            };
            let ghost cc = c@;
            if i > 0 {
                self.emit_text_line(&mut code, "print!(\" \");\n");
            }
            let mut call: String = String::new();
            emit(&mut call, "print!(\"{}\", ");
            emit_all(&mut call, c);
            emit(&mut call, ");\n");
            proof {
                assert(call@ =~= "print!(\"{}\", "@ + cc + ");\n"@);
            }
            self.emit_line(&mut code, call);
            proof {
                assert(code@ =~= before + (if i > 0 {
                    line(depth, "print!(\" \");\n"@)
                } else {
                    Seq::empty()
                }) + line(depth, "print!(\"{}\", "@ + cc + ");\n"@));
            }
            i = i + 1;
        }
        if !semicolon {
            let ghost before = code@;
            self.emit_text_line(&mut code, "println!();\n");
            proof {
                assert(code@ =~= before + line(depth, "println!();\n"@));
            }
        }
        Ok(code)
    }

    /// Adds a line at the current depth to generated code.
    fn emit_line(&self, code: &mut String, body: String)
        ensures
            final(code)@ == old(code)@ + line(
                self.indent_level as nat,
                body@,
            ),
    {
        self.emit_indent(code);
        emit_all(code, body);
        proof {
            assert(code@ =~= old(code)@ + line(
                self.indent_level as nat,
                body@,
            ));
        }
    }

    /// Adds a line of plain text at the current depth to generated code.
    fn emit_text_line(&self, code: &mut String, s: &str)
        ensures
            final(code)@ == old(code)@ + line(
                self.indent_level as nat,
                s@,
            ),
    {
        self.emit_indent(code);
        emit(code, s);
        proof {
            assert(code@ =~= old(code)@ + line(
                self.indent_level as nat,
                s@,
            ));
        }
    }

    /// The line that stores the value of an expression in a variable.
    fn insertion(variable: &str, value: String) -> (body: String)
        ensures
            body@ == "variables.insert(\""@ + variable@ + "\".to_string(), "@ + value@ + ");\n"@,
    {
        let mut body: String = String::new();
        proof {
            assert(body@ =~= Seq::<char>::empty());
        }
        emit(&mut body, "variables.insert(\"");
        emit(&mut body, variable);
        emit(&mut body, "\".to_string(), ");
        emit_all(&mut body, value);
        emit(&mut body, ");\n");
        proof {
            assert(body@ =~= "variables.insert(\""@ + variable@ + "\".to_string(), "@ + value@
                + ");\n"@);
        }
        body
    }

    /// Compiles an `INPUT` statement at the current depth.
    fn compile_input(&self, variable: &str) -> (code: String)
        ensures
            code@ == input_code(variable@, self.indent_level as nat),
    {
        let mut code: String = String::new();
        let mut prompt: String = String::new();
        let mut store: String = String::new();
        proof {
            assert(code@ =~= Seq::<char>::empty());
        }
        emit(&mut prompt, "print!(\"Enter ");
        emit(&mut prompt, variable);
        emit(&mut prompt, ": \");\n");
        emit(&mut store, "variables.insert(\"");
        emit(&mut store, variable);
        emit(&mut store, "\".to_string(), input.trim().parse::<f64>().unwrap());\n");
        proof {
            assert(prompt@ =~= "print!(\"Enter "@ + variable@ + ": \");\n"@);
            assert(store@ =~= "variables.insert(\""@ + variable@
                + "\".to_string(), input.trim().parse::<f64>().unwrap());\n"@);
        }
        self.emit_line(&mut code, prompt);
        self.emit_text_line(&mut code, "io::stdout().flush().unwrap();\n");
        self.emit_text_line(&mut code, "let mut input = String::new();\n");
        self.emit_text_line(&mut code, "io::stdin().read_line(&mut input).unwrap();\n");
        self.emit_line(&mut code, store);
        proof {
            assert(code@ =~= input_code(variable@, self.indent_level as nat));
        }
        code
    }

    /// Compiles a `FOR` statement at the current depth, and goes one
    /// level deeper.
    fn compile_for(&mut self, variable: &str, start: String, end: String) -> (code:
        String)
        requires
            old(self).indent_level < usize::MAX,
        ensures
            final(self).temp_vars == old(self).temp_vars,
            final(self).indent_level == old(self).indent_level + 1,
            code@ == line(
                old(self).indent_level as nat,
                "let mut "@ + variable@ + " = "@ + start@ + ";\n"@,
            ) + line(
                old(self).indent_level as nat,
                "while "@ + variable@ + " <= "@ + end@ + " {\n"@,
            ) + line(
                (old(self).indent_level + 1) as nat,
                "variables.insert(\""@ + variable@ + "\".to_string(), "@ + variable@ + ");\n"@,
            ),
    {
        let mut code: String = String::new();
        let mut declare: String = String::new();
        let mut head: String = String::new();
        let mut value: String = String::new();
        proof {
            assert(code@ =~= Seq::<char>::empty());
        }
        let ghost sc = start@;
        let ghost ec = end@;
        emit(&mut declare, "let mut ");
        emit(&mut declare, variable);
        emit(&mut declare, " = ");
        emit_all(&mut declare, start);
        emit(&mut declare, ";\n");
        proof {
            assert(declare@ =~= "let mut "@ + variable@ + " = "@ + sc
                + ";\n"@);
        }
        emit(&mut head, "while ");
        emit(&mut head, variable);
        emit(&mut head, " <= ");
        emit_all(&mut head, end);
        emit(&mut head, " {\n");
        proof {
            assert(head@ =~= "while "@ + variable@ + " <= "@ + ec
                + " {\n"@);
        }
        emit(&mut value, variable);
        proof {
            assert(value@ =~= variable@);
        }
        let store = Self::insertion(variable, value);
        self.emit_line(&mut code, declare);
        self.emit_line(&mut code, head);
        self.indent_level = self.indent_level + 1;
        self.emit_line(&mut code, store);
        code
    }

    /// Compiles a statement at the current depth. `FOR` leaves the depth
    /// one deeper and `NEXT` one less deep; a failure leaves the context as
    /// it was.
    pub fn compile_statement(&mut self, statement: &Statement) -> (r: Result<
        String,
        CompileError,
    >)
        ensures
            final(self).temp_vars == old(self).temp_vars,
            r is Err ==> *final(self) == *old(self),
            statement_result(r, final(self).indent_level) == statement_code(
                statement@,
                old(self).indent_level as nat,
            ),
    {
        let mut code: String = String::new();
        proof {
            assert(code@ =~= Seq::<char>::empty());
        }
        match statement {
            Statement::Print { expressions, semicolon } => self.compile_print(
                expressions,
                *semicolon,
            ),
            Statement::Let { variable, expression } => {
                let c = match self.compile_expression(expression) {
                    Ok(c) => c,
                    Err(e) => {
                        return Err(e);
                    },
                };
                let store = Self::insertion(variable.as_str(), c);
                self.emit_line(&mut code, store);
                Ok(code)
            },
            Statement::Input { variable } => Ok(self.compile_input(variable.as_str())),
            Statement::For { loop_data } => {
                let start = match self.compile_expression(&loop_data.start) {
                    Ok(c) => c,
                    Err(e) => {
                        return Err(e);
                    },
                };
                let end = match self.compile_expression(&loop_data.end) {
                    Ok(c) => c,
                    Err(e) => {
                        return Err(e);
                    },
                };
                match self.compile_expression(&loop_data.step) {
                    Ok(_) => {},
                    Err(e) => {
                        return Err(e);
                    },
                }
                if self.indent_level == usize::MAX {
                    return Err(CompileError::NestingTooDeep);
                }
                Ok(self.compile_for(loop_data.variable.as_str(), start, end))
            },
            Statement::Next { variable } => {
                if self.indent_level == 0 {
                    return Err(CompileError::UnmatchedNext);
                }
                let mut count: String = String::new();
                emit(&mut count, variable.as_str());
                emit(&mut count, " += 1.0;\n");
                proof {
                    assert(count@ =~= variable@ + " += 1.0;\n"@);
                }
                self.emit_line(&mut code, count);
                self.indent_level = self.indent_level - 1;
                self.emit_text_line(&mut code, "}\n");
                Ok(code)
            },
            Statement::End => {
                self.emit_text_line(&mut code, "return;\n");
                Ok(code)
            },
            _ => Err(CompileError::UnsupportedStatement),
        }
    }

    /// Compiles a program, in a fresh context, and leaves the context
    /// fresh.
    pub fn compile_program(&mut self, program: &Program) -> (r: Result<String, CompileError>)
        ensures
            final(self).temp_vars == 0,
            final(self).indent_level == 0,
            code_result(r) == program_code(program@),
    {
        self.temp_vars = 0;
        self.indent_level = 1;
        let mut code: String = String::new();
        proof {
            assert(code@ =~= Seq::<char>::empty());
        }
        emit(&mut code, "use std::collections::HashMap;\n");
        emit(&mut code, "use std::io::{self, Write};\n\n");
        emit(&mut code, "fn main() {\n");
        self.emit_indent(&mut code);
        emit(&mut code, "let mut variables: HashMap<String, f64> = HashMap::new();\n");
        proof {
            assert(code@ =~= program_head());
        }
        let mut i: usize = 0;
        while i < program.lines.len()
            invariant
                0 <= i <= program.lines.len(),
                self.temp_vars == 0,
                lines_code(program@, i as int, self.indent_level as nat, code@)
                    == lines_code(program@, 0, 1, program_head()),
            decreases program.lines.len() - i,
        {
            match self.compile_statement(&program.lines[i].statement) {
                Ok(c) => {
                    proof {
                        assert(program@[i as int].statement == program.lines@[i as int].statement@);
                    }
                    emit_all(&mut code, c);
                },
                Err(e) => {
                    proof {
                        assert(program@[i as int].statement == program.lines@[i as int].statement@);
                    }
                    self.indent_level = 0;
                    return Err(e);
                },
            }
            i = i + 1;
        }
        if self.indent_level == 0 {
            return Err(CompileError::UnmatchedNext);
        }
        self.indent_level = 0;
        let ghost body = code@;
        emit(&mut code, "}\n");
        emit(&mut code, "\n");
        proof {
            assert(code@ =~= body + "}\n"@ + "\n"@);
        }
        Ok(code)
    }
}

} // verus!
