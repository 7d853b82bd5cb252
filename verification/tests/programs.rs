use regvm::compiler::Compiler;
use regvm::opcode::Opcode;
use regvm::compiler::language_components::Value;
use regvm::interpreter::Thread;

fn run(compiler: &mut Compiler, input: &str) -> Option<Value> {
    let bytecode = compiler
        .compile(input, "test")
        .unwrap_or_else(|e| panic!("{}", e));
    let mut thread = Thread::new(bytecode);
    thread.exec();
    thread.return_value().clone()
}

#[test]
fn while_loop_sum() {
    let mut compiler = Compiler::new();
    let output = run(
        &mut compiler,
        "let i = 0; let s = 0; while i < 10 { i = i + 1; s = s + i; } return s;",
    );
    assert_eq!(output, Some(Value::Int(55)));
}

#[test]
fn while_loop_empty_body_terminates() {
    let mut compiler = Compiler::new();
    let output = run(&mut compiler, "while false { } return 1;");
    assert_eq!(output, Some(Value::Int(1)));
}

#[test]
fn while_loops_in_sequence() {
    let mut compiler = Compiler::new();
    let output = run(
        &mut compiler,
        "let i = 0; while i < 3 { i = i + 1; } let j = 10; while j > 4 { j = j - 2; } return i + j;",
    );
    assert_eq!(output, Some(Value::Int(7)));
}

#[test]
fn compound_assignments() {
    let mut compiler = Compiler::new();
    let output = run(
        &mut compiler,
        "let x = 10; x += 5; x -= 3; x *= 4; x /= 2; x %= 7; return x;",
    );
    // ((10 + 5 - 3) * 4 / 2) % 7 == 24 % 7 == 3
    assert_eq!(output, Some(Value::Int(3)));

    let output = run(&mut compiler, "let s = \"ab\"; s += \"cd\"; s *= 2; return s;");
    assert_eq!(output, Some(Value::Str(String::from("abcdabcd"))));
}

#[test]
fn let_shadowing_rebinds() {
    let mut compiler = Compiler::new();
    let output = run(&mut compiler, "let x = 1; let x = \"two\"; return x;");
    assert_eq!(output, Some(Value::Str(String::from("two"))));
}

#[test]
fn let_of_variable_copies() {
    let mut compiler = Compiler::new();
    let output = run(&mut compiler, "let x = 1; let y = x; x = 5; return y;");
    assert_eq!(output, Some(Value::Int(1)));
}

#[test]
fn unary_negation_and_not() {
    let mut compiler = Compiler::new();
    let output = run(&mut compiler, "-(5)");
    assert_eq!(output, Some(Value::Int(-5)));
    let output = run(&mut compiler, "not not true");
    assert_eq!(output, Some(Value::Bool(true)));
}

#[test]
fn expression_statement_discards() {
    let mut compiler = Compiler::new();
    let output = run(&mut compiler, "1 + 2; return 9;");
    assert_eq!(output, Some(Value::Int(9)));
}

#[test]
fn no_save_leaves_no_return_value() {
    let mut compiler = Compiler::new();
    let output = run(&mut compiler, "let x = 3;");
    assert_eq!(output, None);
}

#[test]
fn division_by_zero_halts_without_result() {
    let mut compiler = Compiler::new();
    // the interpreter stops at the trap; no value is saved
    let output = run(&mut compiler, "return 1 / 0;");
    assert_eq!(output, None);
}

#[test]
fn type_error_binary_operation() {
    let mut compiler = Compiler::new();
    let err = compiler.compile("1 + true", "test").unwrap_err();
    let expected = "In file: test
In line 1:

 1| 1 + true
      ^

Error: Invalid operation '+' for types 'int' and 'bool'";
    assert_eq!(err, expected);
}

#[test]
fn type_error_unary_operation() {
    let mut compiler = Compiler::new();
    let err = compiler.compile("not 5", "test").unwrap_err();
    assert!(err.contains("Invalid operation 'not' for type 'int'"));
}

#[test]
fn error_identifier_not_found() {
    let mut compiler = Compiler::new();
    let err = compiler.compile("y = 1", "test").unwrap_err();
    assert!(err.contains("Identifier not found"));
}

#[test]
fn error_identifier_is_keyword() {
    let mut compiler = Compiler::new();
    let err = compiler.compile("let let = 1", "test").unwrap_err();
    assert!(err.contains("Expected identifier, found keyword"));
}

#[test]
fn error_invalid_assignment() {
    let mut compiler = Compiler::new();
    let err = compiler.compile("let x = 1; x = true;", "test").unwrap_err();
    assert!(err.contains("Cannot assign to a variable of type 'int' a value of type 'bool'"));
}

#[test]
fn error_while_condition_not_bool() {
    let mut compiler = Compiler::new();
    let err = compiler.compile("while 1 { }", "test").unwrap_err();
    assert!(err.contains("Expected type 'bool', found type 'int'"));
}

#[test]
fn error_parse_failure() {
    let mut compiler = Compiler::new();
    let err = compiler.compile("1 + ", "test").unwrap_err();
    assert!(err.contains("Parse error"));
}

#[test]
fn parse_error_leaves_compiler_unchanged() {
    let mut compiler = Compiler::new();
    compiler.compile("let a = 1;", "test").unwrap();
    let vars = compiler.variable_count();
    let free = compiler.free_register_count();
    assert!(compiler.compile("1 + ", "test").is_err());
    assert_eq!(compiler.variable_count(), vars);
    assert_eq!(compiler.free_register_count(), free);
}

#[test]
fn free_list_conserved_after_compilation() {
    // every register is free or owned by one of the bound variables
    let mut compiler = Compiler::new();
    compiler
        .compile("let a = 1; let b = 2; return a + b;", "test")
        .unwrap();
    assert_eq!(compiler.variable_count(), 2);
    assert_eq!(compiler.free_register_count(), 256 - 2);

    compiler.compile("5 + 2 - 3 * 4", "test").unwrap();
    assert_eq!(compiler.variable_count(), 0);
    assert_eq!(compiler.free_register_count(), 256);
}

#[test]
fn reset_restores_fresh_state() {
    let mut compiler = Compiler::new();
    let first = compiler.compile("let x = 1; return x + 1;", "test").unwrap();
    compiler.reset();
    assert_eq!(compiler.variable_count(), 0);
    assert_eq!(compiler.free_register_count(), 256);
    // a reset compiler compiles exactly as a fresh one does
    let again = compiler.compile("let x = 1; return x + 1;", "test").unwrap();
    let fresh = Compiler::new().compile("let x = 1; return x + 1;", "test").unwrap();
    assert_eq!(first, again);
    assert_eq!(again, fresh);
}

#[test]
fn compilation_is_deterministic() {
    let source = "let i = 0; let s = 0; while i < 10 { i = i + 1; s = s + i; } return s;";
    let a = Compiler::new().compile(source, "test").unwrap();
    let b = Compiler::new().compile(source, "test").unwrap();
    assert_eq!(a, b);
}

#[test]
fn jump_offsets_stay_in_bounds() {
    let source = "let i = 0; while i < 3 { i = i + 1; } while i > 0 { i = i - 1; } return i;";
    let code = Compiler::new().compile(source, "test").unwrap();
    let n = code.len() as i64;
    for (pc, op) in code.iter().enumerate() {
        let target = |off: i16| pc as i64 + 1 + off as i64;
        match op {
            Opcode::Jump(off) => assert!(0 <= target(*off) && target(*off) <= n),
            Opcode::JumpCond(_, off) => assert!(0 <= target(*off) && target(*off) <= n),
            _ => {}
        }
    }
}

#[test]
fn string_repetition_clamps_negatives() {
    let mut compiler = Compiler::new();
    let output = run(&mut compiler, "let n = 0 - 2; return n * \"xy\";");
    assert_eq!(output, Some(Value::Str(String::from(""))));
}

#[test]
fn comments_are_skipped() {
    let mut compiler = Compiler::new();
    let output = run(&mut compiler, "// a comment\nreturn 4; // trailing");
    assert_eq!(output, Some(Value::Int(4)));
}

#[test]
fn disassembly_lines() {
    assert_eq!(Opcode::AddInt(1, 2, 3).to_text(), "add_int      1   2   3  ");
    assert_eq!(Opcode::LoadInt(0, -42).to_text(), "load_int     0   -42");
    assert_eq!(Opcode::Jump(-3).to_text(), "jump         -3");
    assert_eq!(Opcode::Save(7).to_text(), "save         7  ");
}
