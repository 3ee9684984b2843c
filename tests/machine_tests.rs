use nova::compiler::ast::{BinaryOperator, Expression, Literal, Statement};
use nova::compiler::generator::BytecodeGenerator;
use nova::machine::arithmetic_operations::ArithmeticOp;
use nova::machine::{Comparison, Effect, FloatRequest, HostValue, Number, VirtualMachine};
use nova::object::{NativeFunction, NovaObject};
use nova::program::Program;

fn num(v: i64) -> Expression {
    Expression::Literal(Literal::Integer(v))
}

fn text(s: &str) -> Expression {
    Expression::Literal(Literal::String(s.as_bytes().to_vec()))
}

fn var(name: &str) -> Expression {
    Expression::Variable(name.as_bytes().to_vec())
}

fn bin(left: Expression, op: BinaryOperator, right: Expression) -> Expression {
    Expression::Binary(Box::new(left), op, Box::new(right))
}

fn call(name: &str, arguments: Vec<Expression>) -> Expression {
    Expression::Call(Box::new(var(name)), arguments)
}

fn decl(name: &str, value: Expression) -> Statement {
    Statement::VarDeclaration(name.as_bytes().to_vec(), Some(value))
}

fn assign(name: &str, value: Expression) -> Statement {
    Statement::Expression(Expression::Assign(name.as_bytes().to_vec(), Box::new(value)))
}

fn println(value: Expression) -> Statement {
    Statement::Expression(call("println", vec![value]))
}

fn compile(statements: Vec<Statement>) -> Program {
    BytecodeGenerator::new().generate_bytecode(&statements).unwrap()
}

fn as_f64(n: Number) -> f64 {
    match n {
        Number::Int(i) => i as f64,
        Number::Float(bits) => f64::from_bits(bits),
    }
}

fn host(request: FloatRequest) -> HostValue {
    match request {
        FloatRequest::Arithmetic { op, left, right } => {
            if let (ArithmeticOp::Pow, Number::Int(a), Number::Int(b)) = (op, left, right) {
                return HostValue::Int((a as f64).powf(b as f64) as i64);
            }
            let (a, b) = (as_f64(left), as_f64(right));
            let r = match op {
                ArithmeticOp::Add => a + b,
                ArithmeticOp::Sub => a - b,
                ArithmeticOp::Mul => a * b,
                ArithmeticOp::Div => a / b,
                ArithmeticOp::Pow => a.powf(b),
                ArithmeticOp::Mod => a % b,
            };
            HostValue::Float(r.to_bits())
        }
        FloatRequest::Compare { op, left, right } => {
            let (a, b) = (as_f64(left), as_f64(right));
            HostValue::Truth(match op {
                Comparison::Less => a < b,
                Comparison::LessEqual => a <= b,
                Comparison::Equal => a == b,
            })
        }
        FloatRequest::Widen { bits } => HostValue::Float((f32::from_bits(bits) as f64).to_bits()),
        FloatRequest::Format { bits } => {
            HostValue::Text(f64::from_bits(bits).to_string().into_bytes())
        }
    }
}

fn show(value: &NovaObject) -> String {
    match value {
        NovaObject::Nil => "None".to_string(),
        NovaObject::Bool(b) => b.to_string(),
        NovaObject::Int64(i) => i.to_string(),
        NovaObject::Float64(bits) => f64::from_bits(*bits).to_string(),
        NovaObject::String(s) => String::from_utf8_lossy(s).into_owned(),
        NovaObject::NovaFunction(f) => format!(
            "function: {}, parameters: {}",
            String::from_utf8_lossy(&f.name),
            f.arity
        ),
        NovaObject::NativeFunction(f) => {
            format!("function: {}", String::from_utf8_lossy(&f.name))
        }
    }
}

/// Runs from `offset`; returns the exit code, what was printed, and the error report.
fn run(vm: &mut VirtualMachine, offset: u32) -> (u32, String, String) {
    vm.start_vm(offset);
    let mut out = String::new();
    let mut effect = vm.step();
    loop {
        match effect {
            Effect::Continue => effect = vm.step(),
            Effect::Halted => return (0, out, String::new()),
            Effect::Failed => {
                let report = String::from_utf8_lossy(&vm.print_error()).into_owned();
                vm.clear_error();
                return (1, out, report);
            }
            Effect::Print { value, newline } => {
                out.push_str(&show(&value));
                if newline {
                    out.push('\n');
                }
                effect = vm.step();
            }
            Effect::CallNative { index, arguments } => {
                let result = if index == 0 {
                    Ok(NovaObject::Int64(arguments.len() as i64))
                } else {
                    Err(b"native failed".to_vec())
                };
                effect = vm.complete_native(result);
                if let Effect::Continue = effect {
                    effect = vm.step();
                }
            }
            Effect::Float(request) => {
                effect = vm.complete_float(host(request));
                if let Effect::Continue = effect {
                    effect = vm.step();
                }
            }
        }
    }
}

fn run_program(statements: Vec<Statement>) -> (u32, String, String) {
    let mut vm = VirtualMachine::new();
    vm.load_program(compile(statements)).unwrap();
    run(&mut vm, 0)
}

#[test]
fn test_globals() {
    let source = vec![
        decl("a", num(4)),
        decl("b", bin(var("a"), BinaryOperator::Star, var("a"))),
        decl("c", bin(var("b"), BinaryOperator::Star, var("a"))),
        decl("d", num(100)),
        decl(
            "e",
            bin(
                bin(bin(var("a"), BinaryOperator::Plus, var("b")), BinaryOperator::Plus, var("c")),
                BinaryOperator::Plus,
                var("d"),
            ),
        ),
    ];
    let source2 = vec![
        assign("a", bin(var("e"), BinaryOperator::Star, var("b"))),
        println(var("a")),
    ];
    let program = compile(source);
    let program2 = compile(source2);

    let mut vm = VirtualMachine::new();
    let mut offset = 0u32;
    vm.load_program(program).unwrap();
    let (code, _, _) = run(&mut vm, offset);
    assert_eq!(code, 0);

    offset += vm.get_instruction_count() as u32;
    vm.load_program(program2).unwrap();
    let (code, out, _) = run(&mut vm, offset);
    assert_eq!(code, 0);
    assert_eq!(out, "2944\n");
}

#[test]
fn test_block_locals() {
    let source = vec![Statement::Block(vec![
        decl("a", num(10)),
        decl("b", num(20)),
        println(bin(var("a"), BinaryOperator::Star, var("b"))),
    ])];
    let (code, out, _) = run_program(source);
    assert_eq!(code, 0);
    assert_eq!(out, "200\n");
}

#[test]
fn globals_sum_to_184() {
    let source = vec![
        decl("a", num(4)),
        decl("b", bin(var("a"), BinaryOperator::Star, var("a"))),
        decl("c", bin(var("b"), BinaryOperator::Star, var("a"))),
        decl("d", num(100)),
        decl(
            "e",
            bin(
                bin(bin(var("a"), BinaryOperator::Plus, var("b")), BinaryOperator::Plus, var("c")),
                BinaryOperator::Plus,
                var("d"),
            ),
        ),
        println(var("e")),
    ];
    assert_eq!(run_program(source), (0, "184\n".to_string(), String::new()));
}

#[test]
fn while_loop_counts_to_ten() {
    let source = vec![
        decl("i", num(1)),
        Statement::While(
            bin(var("i"), BinaryOperator::LessEqual, num(10)),
            Box::new(Statement::Block(vec![
                println(var("i")),
                assign("i", bin(var("i"), BinaryOperator::Plus, num(1))),
            ])),
        ),
    ];
    let (code, out, _) = run_program(source);
    assert_eq!(code, 0);
    assert_eq!(out, "1\n2\n3\n4\n5\n6\n7\n8\n9\n10\n");
}

#[test]
fn function_squares_its_argument() {
    let source = vec![
        Statement::Function(
            b"sq".to_vec(),
            vec![b"x".to_vec()],
            vec![Statement::Return(Some(bin(var("x"), BinaryOperator::Star, var("x"))))],
        ),
        println(call("sq", vec![num(7)])),
    ];
    let (code, out, _) = run_program(source);
    assert_eq!(code, 0);
    assert_eq!(out, "49\n");
}

#[test]
fn strings_concatenate() {
    let source = vec![
        decl("s", text("hello ")),
        println(bin(var("s"), BinaryOperator::Plus, text("world"))),
    ];
    let (code, out, _) = run_program(source);
    assert_eq!(code, 0);
    assert_eq!(out, "hello world\n");
}

#[test]
fn if_else_takes_then_branch() {
    let source = vec![Statement::If(
        bin(num(3), BinaryOperator::Greater, num(2)),
        Box::new(Statement::Block(vec![println(text("yes"))])),
        Some(Box::new(Statement::Block(vec![println(text("no"))]))),
    )];
    let (code, out, _) = run_program(source);
    assert_eq!(code, 0);
    assert_eq!(out, "yes\n");
}

#[test]
fn if_else_takes_else_branch() {
    let source = vec![Statement::If(
        bin(num(1), BinaryOperator::Greater, num(2)),
        Box::new(Statement::Block(vec![println(text("yes"))])),
        Some(Box::new(Statement::Block(vec![decl("z", num(5)), println(var("z"))]))),
    )];
    let (code, out, _) = run_program(source);
    assert_eq!(code, 0);
    assert_eq!(out, "5\n");
}

#[test]
fn if_without_else_skips_then_branch() {
    let source = vec![
        Statement::If(
            bin(num(1), BinaryOperator::EqualEqual, num(2)),
            Box::new(Statement::Block(vec![println(text("yes"))])),
            None,
        ),
        println(text("after")),
    ];
    let (code, out, _) = run_program(source);
    assert_eq!(code, 0);
    assert_eq!(out, "after\n");
}

#[test]
fn unknown_global_is_an_error_naming_it() {
    let source = vec![println(var("missing"))];
    let (code, _, report) = run_program(source);
    assert_eq!(code, 1);
    assert!(report.contains("missing"));
    assert!(report.contains("Cannot find global named: missing"));
}

#[test]
fn arity_mismatch_names_both_counts() {
    let source = vec![
        Statement::Function(
            b"f".to_vec(),
            vec![b"x".to_vec()],
            vec![Statement::Return(Some(var("x")))],
        ),
        println(call("f", vec![num(1), num(2)])),
    ];
    let (code, _, report) = run_program(source);
    assert_eq!(code, 1);
    assert!(report.contains("1 are required"));
    assert!(report.contains("2 were provided"));
}

#[test]
fn number_plus_string_concatenates() {
    let source = vec![println(bin(num(1), BinaryOperator::Plus, text("x")))];
    let (code, out, _) = run_program(source);
    assert_eq!(code, 0);
    assert_eq!(out, "1x\n");
}

#[test]
fn number_plus_none_is_an_error() {
    let source = vec![println(bin(num(1), BinaryOperator::Plus, Expression::Literal(Literal::Nil)))];
    let (code, out, _) = run_program(source);
    assert_eq!(code, 1);
    assert_eq!(out, "");
}

#[test]
fn division_of_integers_gives_a_float() {
    let source = vec![println(bin(num(7), BinaryOperator::Slash, num(2)))];
    let (code, out, _) = run_program(source);
    assert_eq!(code, 0);
    assert_eq!(out, "3.5\n");
}

#[test]
fn integer_arithmetic_wraps_and_mod_truncates() {
    let source = vec![
        println(bin(num(i64::MAX), BinaryOperator::Plus, num(1))),
        println(bin(num(-7), BinaryOperator::Percent, num(3))),
        println(bin(num(2), BinaryOperator::Caret, num(10))),
    ];
    let (code, out, _) = run_program(source);
    assert_eq!(code, 0);
    assert_eq!(out, format!("{}\n-1\n1024\n", i64::MIN));
}

#[test]
fn modulus_by_zero_is_an_error() {
    let source = vec![println(bin(num(1), BinaryOperator::Percent, num(0)))];
    let (code, _, report) = run_program(source);
    assert_eq!(code, 1);
    assert!(report.contains("division by zero"));
}

#[test]
fn float_literals_and_mixed_arithmetic() {
    let source = vec![
        println(bin(
            Expression::Literal(Literal::Float32(1.5f32.to_bits())),
            BinaryOperator::Plus,
            num(1),
        )),
        println(bin(
            text("v="),
            BinaryOperator::Plus,
            Expression::Literal(Literal::Float64(0.1f64.to_bits())),
        )),
    ];
    let (code, out, _) = run_program(source);
    assert_eq!(code, 0);
    assert_eq!(out, "2.5\nv=0.1\n");
}

#[test]
fn comparisons_of_strings_and_kinds() {
    let source = vec![
        println(bin(text("abc"), BinaryOperator::Less, text("abd"))),
        println(bin(text("b"), BinaryOperator::LessEqual, text("a"))),
        println(bin(num(1), BinaryOperator::EqualEqual, text("1"))),
        println(bin(
            Expression::Literal(Literal::Nil),
            BinaryOperator::EqualEqual,
            Expression::Literal(Literal::Nil),
        )),
        println(bin(num(1), BinaryOperator::NotEqual, num(2))),
    ];
    let (code, out, _) = run_program(source);
    assert_eq!(code, 0);
    assert_eq!(out, "true\nfalse\nfalse\ntrue\ntrue\n");
}

#[test]
fn ordering_a_number_against_a_string_is_an_error() {
    let source = vec![println(bin(num(1), BinaryOperator::Less, text("x")))];
    let (code, _, report) = run_program(source);
    assert_eq!(code, 1);
    assert!(report.contains("cannot compare"));
}

#[test]
fn native_functions_are_called_through_the_host() {
    let mut vm = VirtualMachine::new();
    vm.load_natives(vec![NativeFunction { name: b"count".to_vec(), index: 0 }]);
    let program = compile(vec![println(call("count", vec![num(1), num(2), num(3)]))]);
    vm.load_program(program).unwrap();
    let (code, out, _) = run(&mut vm, 0);
    assert_eq!(code, 0);
    assert_eq!(out, "3\n");
}

#[test]
fn native_errors_become_runtime_errors() {
    let mut vm = VirtualMachine::new();
    vm.load_natives(vec![NativeFunction { name: b"fail".to_vec(), index: 1 }]);
    let program = compile(vec![Statement::Expression(call("fail", vec![]))]);
    vm.load_program(program).unwrap();
    let (code, _, report) = run(&mut vm, 0);
    assert_eq!(code, 1);
    assert!(report.contains("native failed"));
}

#[test]
fn calls_keep_locals_and_frames_balanced() {
    let source = vec![
        Statement::Function(
            b"add".to_vec(),
            vec![b"a".to_vec(), b"b".to_vec()],
            vec![
                Statement::VarDeclaration(b"t".to_vec(), Some(bin(var("a"), BinaryOperator::Plus, var("b")))),
                Statement::Return(Some(var("t"))),
            ],
        ),
        println(call("add", vec![num(2), num(3)])),
        println(call("add", vec![call("add", vec![num(1), num(1)]), num(10)])),
    ];
    let mut vm = VirtualMachine::new();
    vm.load_program(compile(source)).unwrap();
    let (code, out, _) = run(&mut vm, 0);
    assert_eq!(code, 0);
    assert_eq!(out, "5\n12\n");
    assert_eq!(vm.locals.len(), 0);
    assert_eq!(vm.frames.len(), 1);
}

#[test]
fn negation_of_an_integer_is_an_error() {
    let source = vec![println(Expression::Unary(
        nova::compiler::ast::UnaryOperator::Minus,
        Box::new(num(5)),
    ))];
    let (code, _, report) = run_program(source);
    assert_eq!(code, 1);
    assert!(report.contains("Cannot negate"));
}

#[test]
fn negation_of_a_float_flips_its_sign() {
    let source = vec![println(Expression::Unary(
        nova::compiler::ast::UnaryOperator::Minus,
        Box::new(Expression::Literal(Literal::Float32(2.5f32.to_bits()))),
    ))];
    let (code, out, _) = run_program(source);
    assert_eq!(code, 0);
    assert_eq!(out, "-2.5\n");
}

#[test]
fn unsupported_opcode_is_an_error() {
    let mut vm = VirtualMachine::new();
    let program = Program {
        instructions: vec![nova::instruction::InstructionBuilder::new()
            .add_opcode(nova::bytecode::OpCode::Break)
            .build()],
        immutables: vec![],
        line_definitions: vec![],
    };
    vm.load_program(program).unwrap();
    let (code, _, report) = run(&mut vm, 0);
    assert_eq!(code, 1);
    assert!(report.contains("Unsupported opcode"));
}

#[test]
fn redefined_globals_are_found_after_caching() {
    let source = vec![
        decl("a", num(1)),
        println(var("a")),
        println(var("a")),
        decl("a", num(2)),
        println(var("a")),
        assign("a", num(3)),
        println(var("a")),
    ];
    let (code, out, _) = run_program(source);
    assert_eq!(code, 0);
    assert_eq!(out, "1\n1\n2\n3\n");
}

#[test]
fn assigning_an_undeclared_global_is_an_error() {
    let (code, _, report) = run_program(vec![assign("nowhere", num(1))]);
    assert_eq!(code, 1);
    assert!(report.contains("Cannot find global named: nowhere"));
}
