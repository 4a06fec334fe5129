use minibasic::ast::{Expression, ForLoop, Line, Program, Statement};
use minibasic::compiler::{compile_literal, CompileError, Compiler};
use minibasic::lexer::tokenize;
use minibasic::parser::parse;
use minibasic::token::Token;

fn program(source: &str) -> Program {
    parse(tokenize(source)).unwrap()
}

fn compile(source: &str) -> Result<String, CompileError> {
    Compiler::new().compile_program(&program(source))
}

fn expression(source: &str) -> Result<String, CompileError> {
    let program = program(&format!("X = {}", source));
    match &program.lines[0].statement {
        Statement::Let { expression, .. } => {
            Compiler::new().compile_expression(expression)
        }
        other => panic!("{:?}", other),
    }
}

fn statement(depth: usize, source: &str) -> (Result<String, CompileError>, usize) {
    let program = program(source);
    let mut compiler = Compiler { temp_vars: 0, indent_level: depth };
    let code = compiler.compile_statement(&program.lines[0].statement);
    (code, compiler.indent_level)
}

const HEAD: &str = "use std::collections::HashMap;\nuse std::io::{self, Write};\n\nfn main() {\n    let mut variables: HashMap<String, f64> = HashMap::new();\n";

#[test]
fn empty_program_is_an_empty_main() {
    assert_eq!(compile(""), Ok(format!("{}}}\n\n", HEAD)));
}

#[test]
fn assign_and_print() {
    let expected = format!(
        "{}{}",
        HEAD,
        [
            "    variables.insert(\"X\".to_string(), 5.0);\n",
            "    print!(\"{}\", *variables.get(\"X\").unwrap());\n",
            "    println!();\n",
            "    return;\n",
            "}\n",
            "\n"
        ].concat()
    );
    assert_eq!(compile("LET X = 5\nPRINT X\nEND"), Ok(expected));
}

#[test]
fn loop_becomes_while() {
    let expected = format!(
        "{}{}",
        HEAD,
        [
            "    let mut I = 1.0;\n",
            "    while I <= 3.0 {\n",
            "        variables.insert(\"I\".to_string(), I);\n",
            "        print!(\"{}\", *variables.get(\"I\").unwrap());\n",
            "        println!();\n",
            "        I += 1.0;\n",
            "    }\n",
            "    return;\n",
            "}\n",
            "\n"
        ].concat()
    );
    assert_eq!(compile("FOR I = 1 TO 3\nPRINT I\nNEXT I\nEND"), Ok(expected));
}

#[test]
fn loop_counts_by_one_whatever_the_step() {
    assert_eq!(
        statement(1, "FOR I = 10 TO 1 STEP 2 - 4"),
        (
            Ok([
                "    let mut I = 10.0;\n",
                "    while I <= 1.0 {\n",
                "        variables.insert(\"I\".to_string(), I);\n"
            ].concat()),
            2
        )
    );
    assert_eq!(statement(2, "NEXT I"), (Ok("        I += 1.0;\n    }\n".to_string()), 1));
}

#[test]
fn nested_loops_indent() {
    let expected = format!(
        "{}{}",
        HEAD,
        [
            "    let mut I = 1.0;\n",
            "    while I <= 2.0 {\n",
            "        variables.insert(\"I\".to_string(), I);\n",
            "        let mut J = 1.0;\n",
            "        while J <= 2.0 {\n",
            "            variables.insert(\"J\".to_string(), J);\n",
            "            J += 1.0;\n",
            "        }\n",
            "        I += 1.0;\n",
            "    }\n",
            "}\n",
            "\n"
        ].concat()
    );
    assert_eq!(compile("FOR I = 1 TO 2\nFOR J = 1 TO 2\nNEXT J\nNEXT I"), Ok(expected));
}

#[test]
fn print_writes_a_space_between_expressions() {
    assert_eq!(
        statement(1, "PRINT 1, \"a\";"),
        (
            Ok([
                "    print!(\"{}\", 1.0);\n",
                "    print!(\" \");\n",
                "    print!(\"{}\", \"a\");\n"
            ].concat()),
            1
        )
    );
    assert_eq!(statement(0, "PRINT"), (Ok("println!();\n".to_string()), 0));
    assert_eq!(statement(3, "PRINT ;"), (Ok(String::new()), 3));
}

#[test]
fn input_reads_a_line_and_stores_its_number() {
    assert_eq!(
        statement(1, "INPUT N"),
        (
            Ok([
                "    print!(\"Enter N: \");\n",
                "    io::stdout().flush().unwrap();\n",
                "    let mut input = String::new();\n",
                "    io::stdin().read_line(&mut input).unwrap();\n",
                "    variables.insert(\"N\".to_string(), input.trim().parse::<f64>().unwrap());\n"
            ].concat()),
            1
        )
    );
}

#[test]
fn end_returns() {
    assert_eq!(statement(2, "END"), (Ok("        return;\n".to_string()), 2));
}

#[test]
fn literals_are_written_as_they_stand() {
    assert_eq!(expression("5"), Ok("5.0".to_string()));
    assert_eq!(expression("3.14"), Ok("3.14".to_string()));
    assert_eq!(expression("0.25"), Ok("0.25".to_string()));
    assert_eq!(expression("0.35"), Ok("0.35".to_string()));
    assert_eq!(expression("7."), Ok("7.0".to_string()));
    assert_eq!(expression("007"), Ok("007.0".to_string()));
    assert_eq!(expression("2.50"), Ok("2.50".to_string()));
    assert_eq!(
        expression("123456789012345678901234567890"),
        Ok("123456789012345678901234567890.0".to_string())
    );
    assert_eq!(
        Compiler::new().compile_expression(&Expression::Number("2.50".to_string())),
        Ok("2.50".to_string())
    );
    assert_eq!(compile_literal("1"), "1.0");
    assert_eq!(compile_literal("1."), "1.0");
    assert_eq!(compile_literal("1.5"), "1.5");
    assert_eq!(compile_literal(""), ".0");
}

#[test]
fn written_literals_stand_for_the_numbers_that_the_interpreter_is_given() {
    for literal in ["5", "5.", "3.14", "0.1", "007", "2.50", "9007199254740993", "0.30000000000000004"] {
        let written: f64 = compile_literal(literal).parse().unwrap();
        let read: f64 = literal.parse().unwrap();
        assert_eq!(written.to_bits(), read.to_bits(), "{}", literal);
        assert!(compile_literal(literal).contains('.'));
    }
}

#[test]
fn arithmetic_operators() {
    assert_eq!(expression("1 + 2"), Ok("(1.0 + 2.0)".to_string()));
    assert_eq!(expression("1 - 2"), Ok("(1.0 - 2.0)".to_string()));
    assert_eq!(expression("1 * 2"), Ok("(1.0 * 2.0)".to_string()));
    assert_eq!(expression("1 / 2"), Ok("(1.0 / 2.0)".to_string()));
    assert_eq!(expression("1 ^ 2"), Ok("(1.0).powf(2.0)".to_string()));
    assert_eq!(
        expression("1 + A * 3"),
        Ok("(1.0 + (*variables.get(\"A\").unwrap() * 3.0))".to_string())
    );
}

#[test]
fn comparison_operators() {
    assert_eq!(expression("1 < 2"), Ok("if 1.0 < 2.0 { 1.0 } else { 0.0 }".to_string()));
    assert_eq!(expression("1 > 2"), Ok("if 1.0 > 2.0 { 1.0 } else { 0.0 }".to_string()));
    assert_eq!(expression("1 = 2"), Ok("if 1.0 == 2.0 { 1.0 } else { 0.0 }".to_string()));
    assert_eq!(expression("1 <= 2"), Ok("if 1.0 <= 2.0 { 1.0 } else { 0.0 }".to_string()));
    assert_eq!(expression("1 >= 2"), Ok("if 1.0 >= 2.0 { 1.0 } else { 0.0 }".to_string()));
    assert_eq!(expression("1 <> 2"), Ok("if 1.0 != 2.0 { 1.0 } else { 0.0 }".to_string()));
}

#[test]
fn strings_and_variables() {
    assert_eq!(expression("\"hi\""), Ok("\"hi\"".to_string()));
    assert_eq!(expression("TOTAL"), Ok("*variables.get(\"TOTAL\").unwrap()".to_string()));
}

#[test]
fn built_in_functions_become_method_calls() {
    assert_eq!(expression("ABS(X)"), Ok("(*variables.get(\"X\").unwrap()).abs()".to_string()));
    assert_eq!(expression("SQR(4)"), Ok("(4.0).sqrt()".to_string()));
    assert_eq!(expression("SIN(1)"), Ok("(1.0).sin()".to_string()));
    assert_eq!(expression("COS(1)"), Ok("(1.0).cos()".to_string()));
    assert_eq!(expression("TAN(1)"), Ok("(1.0).tan()".to_string()));
    assert_eq!(expression("INT(1.5)"), Ok("(1.5).floor()".to_string()));
    assert_eq!(expression("INT(1, 2)"), Ok("(1.0).floor()".to_string()));
    assert_eq!(expression("RND()"), Ok("rand::random::<f64>()".to_string()));
    assert_eq!(expression("RND(1)"), Ok("rand::random::<f64>()".to_string()));
}

#[test]
fn what_cannot_be_translated() {
    assert_eq!(compile("IF 1 THEN END"), Err(CompileError::UnsupportedStatement));
    assert_eq!(
        Compiler::new().compile_statement(&Statement::Goto(1)),
        Err(CompileError::UnsupportedStatement)
    );
    assert_eq!(
        Compiler::new().compile_statement(&Statement::Rem("x".to_string())),
        Err(CompileError::UnsupportedStatement)
    );
    assert_eq!(expression("LOG(1)"), Err(CompileError::UnsupportedFunction));
    assert_eq!(expression("ABS()"), Err(CompileError::MissingArgument));
    assert_eq!(
        Compiler::new().compile_expression(&Expression::Binary {
            left: Box::new(Expression::Number("1".to_string())),
            operator: Token::Comma,
            right: Box::new(Expression::Number("2".to_string())),
        }),
        Err(CompileError::UnsupportedOperator)
    );
    assert_eq!(compile("NEXT I"), Err(CompileError::UnmatchedNext));
    assert_eq!(statement(0, "NEXT I"), (Err(CompileError::UnmatchedNext), 0));
    assert_eq!(compile("FOR I = 1 TO 2\nNEXT I\nNEXT I"), Err(CompileError::UnmatchedNext));
    assert_eq!(statement(usize::MAX, "FOR I = 1 TO 2"), (Err(CompileError::NestingTooDeep), usize::MAX));
}

#[test]
fn failures_inside_come_first() {
    assert_eq!(expression("LOG(ABS())"), Err(CompileError::MissingArgument));
    assert_eq!(expression("RND(LOG(1))"), Err(CompileError::UnsupportedFunction));
    assert_eq!(expression("ABS(1, LOG(1))"), Err(CompileError::UnsupportedFunction));
    assert_eq!(
        Compiler::new().compile_expression(&Expression::Binary {
            left: Box::new(Expression::FunctionCall { name: "LOG".to_string(), arguments: vec![] }),
            operator: Token::Comma,
            right: Box::new(Expression::FunctionCall { name: "ABS".to_string(), arguments: vec![] }),
        }),
        Err(CompileError::UnsupportedFunction)
    );
    let unused_step = Statement::For {
        loop_data: ForLoop {
            variable: "I".to_string(),
            start: Expression::Number("1".to_string()),
            end: Expression::Number("2".to_string()),
            step: Expression::FunctionCall { name: "LOG".to_string(), arguments: vec![] },
        },
    };
    assert_eq!(
        Compiler::new().compile_statement(&unused_step),
        Err(CompileError::UnsupportedFunction)
    );
}

#[test]
fn every_run_begins_afresh() {
    let mut compiler = Compiler::new();
    let open = Program {
        lines: vec![Line {
            number: 0,
            statement: Statement::For {
                loop_data: ForLoop {
                    variable: "I".to_string(),
                    start: Expression::Number("1".to_string()),
                    end: Expression::Number("2".to_string()),
                    step: Expression::Number("1.0".to_string()),
                },
            },
        }],
    };
    let first = compiler.compile_program(&open);
    assert_eq!(compiler.indent_level, 0);
    assert_eq!(compiler.temp_vars, 0);
    let second = compiler.compile_program(&open);
    assert_eq!(first, second);
    assert_eq!(
        first,
        Ok(format!(
            "{}{}",
            HEAD,
            [
                "    let mut I = 1.0;\n",
                "    while I <= 2.0 {\n",
                "        variables.insert(\"I\".to_string(), I);\n",
                "}\n",
                "\n"
            ].concat()
        ))
    );
}

#[test]
fn indentation_and_temporary_names() {
    let mut compiler = Compiler::new();
    assert_eq!(compiler.indent(), "");
    assert_eq!(compiler.next_temp(), "temp_1");
    assert_eq!(compiler.next_temp(), "temp_2");
    compiler.indent_level = 3;
    assert_eq!(compiler.indent(), "            ");
    compiler.temp_vars = 1234567889;
    assert_eq!(compiler.next_temp(), "temp_1234567890");
    assert_eq!(compiler.indent_level, 3);
}

#[test]
fn compile_errors_in_words() {
    assert_eq!(
        CompileError::UnsupportedStatement.message(),
        "Statement not implemented for compilation"
    );
    assert_eq!(
        CompileError::UnsupportedOperator.message(),
        "Operator not implemented for compilation"
    );
    assert_eq!(
        CompileError::UnsupportedFunction.message(),
        "Function not implemented for compilation"
    );
    assert_eq!(CompileError::MissingArgument.message(), "Function called without an argument");
    assert_eq!(CompileError::UnmatchedNext.message(), "NEXT without FOR");
    assert_eq!(CompileError::NestingTooDeep.message(), "Loops nested too deep");
}
