use rustlox::chunk::OpCode;
use rustlox::compiler::number_literals;
use rustlox::value::Value;
use rustlox::vm::interpret;
use rustlox::vm::InterpretResult;
use rustlox::vm::Signal;

struct Run {
    result: InterpretResult,
    stdout: String,
    stderr: String,
}

fn literals_of(source: &str) -> Vec<u64> {
    number_literals(source.to_string())
        .iter()
        .map(|text| std::str::from_utf8(text).unwrap().parse::<f64>().unwrap().to_bits())
        .collect()
}

fn run(source: &str) -> Run {
    let mut vm = interpret(source.to_string(), literals_of(source));
    let mut stdout = String::new();
    let mut steps = 0;
    loop {
        steps += 1;
        assert!(steps < 1_000_000, "the program does not end");
        match vm.run(1000) {
            Signal::Continue => {}
            Signal::Awaiting => panic!("the machine waits though nothing was asked"),
            Signal::Print(text) => {
                stdout.push_str(&String::from_utf8(text).unwrap());
                stdout.push('\n');
            }
            Signal::PrintNumber(bits) => {
                stdout.push_str(&format!("{}\n", f64::from_bits(bits)));
            }
            Signal::Arithmetic { op, left, right } => {
                let a = f64::from_bits(left);
                let b = f64::from_bits(right);
                let value = match op {
                    OpCode::Add => a + b,
                    OpCode::Subtract => a - b,
                    OpCode::Multiply => a * b,
                    OpCode::Divide => a / b,
                    _ => panic!("not an arithmetic instruction"),
                };
                vm.resume(Value::Number(value.to_bits()));
            }
            Signal::Native { function: _, args: _ } => {
                vm.resume(Value::Number(12.5f64.to_bits()));
            }
            Signal::Halt(result) => {
                assert_eq!(vm.stack.len(), 0);
                assert_eq!(vm.frames.len(), 0);
                let stderr = String::from_utf8(vm.diagnostics.clone()).unwrap();
                return Run { result, stdout, stderr };
            }
        }
    }
}

#[test]
fn prints_arithmetic_with_precedence() {
    let r = run("print 1 + 2 * 3;");
    assert_eq!(r.result, InterpretResult::Success);
    assert_eq!(r.stdout, "7\n");
    assert_eq!(r.stderr, "");
}

#[test]
fn concatenates_strings() {
    let r = run("var a = \"hi\"; var b = \" there\"; print a + b;");
    assert_eq!(r.result, InterpretResult::Success);
    assert_eq!(r.stdout, "hi there\n");
}

#[test]
fn for_loop_sums() {
    let r = run("var x = 0; for (var i = 0; i < 3; i = i + 1) x = x + i; print x;");
    assert_eq!(r.result, InterpretResult::Success);
    assert_eq!(r.stdout, "3\n");
}

#[test]
fn inner_scope_shadows() {
    let r = run("var a = 1; { var a = 2; print a; } print a;");
    assert_eq!(r.result, InterpretResult::Success);
    assert_eq!(r.stdout, "2\n1\n");
}

#[test]
fn equality_of_strings_and_nan() {
    let r = run("print \"a\" == \"a\"; print 0/0 == 0/0;");
    assert_eq!(r.result, InterpretResult::Success);
    assert_eq!(r.stdout, "true\nfalse\n");
}

#[test]
fn undefined_variable_is_a_runtime_error() {
    let r = run("print undefined;");
    assert_eq!(r.result, InterpretResult::RuntimeError);
    assert_eq!(r.stdout, "");
    assert!(r.stderr.contains("Undefined variable 'undefined'."));
    assert_eq!(r.stderr, "Undefined variable 'undefined'.\n[line 1] in script\n");
}

#[test]
fn literals_print_in_their_canonical_form() {
    let r = run("print nil; print true; print false; print 12; print 2.5; print \"text\"; print \"\";");
    assert_eq!(r.result, InterpretResult::Success);
    assert_eq!(r.stdout, "nil\ntrue\nfalse\n12\n2.5\ntext\n\n");
}

#[test]
fn numbers_print_shortest() {
    let r = run("print 0.1 + 0.2; print 1 / 3; print 100; print -0.5; print 3 - 3;");
    assert_eq!(r.result, InterpretResult::Success);
    assert_eq!(r.stdout, "0.30000000000000004\n0.3333333333333333\n100\n-0.5\n0\n");
}

#[test]
fn logic_keeps_the_deciding_operand() {
    let r = run("print nil or \"yes\"; print 1 or 2; print nil and 1; print 1 and 2; print false or false;");
    assert_eq!(r.result, InterpretResult::Success);
    assert_eq!(r.stdout, "yes\n1\nnil\n2\nfalse\n");
}

#[test]
fn comparisons() {
    let r = run("print 1 < 2; print 2 <= 2; print 1 > 2; print 2 >= 3; print 1 != 1; print nil == false; print !nil;");
    assert_eq!(r.result, InterpretResult::Success);
    assert_eq!(r.stdout, "true\ntrue\nfalse\nfalse\nfalse\nfalse\ntrue\n");
}

#[test]
fn while_loop_counts() {
    let r = run("var i = 0; while (i < 3) { print i; i = i + 1; } print \"done\";");
    assert_eq!(r.result, InterpretResult::Success);
    assert_eq!(r.stdout, "0\n1\n2\ndone\n");
}

#[test]
fn if_and_else() {
    let r = run("if (1 < 2) print \"then\"; else print \"else\"; if (nil) print \"then\"; else print \"else\"; if (false) print \"no\";");
    assert_eq!(r.result, InterpretResult::Success);
    assert_eq!(r.stdout, "then\nelse\n");
}

#[test]
fn locals_in_nested_blocks() {
    let r = run("var a = \"g\"; { var a = \"outer\"; { var b = a; var a = \"inner\"; print a; print b; } print a; } print a;");
    assert_eq!(r.result, InterpretResult::Success);
    assert_eq!(r.stdout, "inner\nouter\nouter\ng\n");
}

#[test]
fn for_loop_variable_is_local_to_the_loop() {
    let r = run("var i = \"kept\"; for (var i = 0; i < 2; i = i + 1) print i; print i;");
    assert_eq!(r.result, InterpretResult::Success);
    assert_eq!(r.stdout, "0\n1\nkept\n");
}

#[test]
fn concatenation_is_interned() {
    let r = run("var a = \"ab\"; var b = \"a\" + \"b\"; print a == b; print \"a\" + \"b\" == \"b\" + \"a\";");
    assert_eq!(r.result, InterpretResult::Success);
    assert_eq!(r.stdout, "true\nfalse\n");
}

#[test]
fn globals_may_be_redefined() {
    let r = run("var a = 1; var a = 2; print a;");
    assert_eq!(r.result, InterpretResult::Success);
    assert_eq!(r.stdout, "2\n");
}

#[test]
fn the_clock_is_a_native_function() {
    let r = run("print clock;");
    assert_eq!(r.result, InterpretResult::Success);
    assert_eq!(r.stdout, "<native fn>\n");
}

#[test]
fn compile_error_runs_nothing() {
    let r = run("print 1; print ;");
    assert_eq!(r.result, InterpretResult::CompileError);
    assert_eq!(r.stdout, "");
    assert_eq!(r.stderr, "[line 1] Error at ';': Expect expression.\n");
}

#[test]
fn runtime_errors_name_their_line() {
    let r = run("print 1;\nprint -nil;");
    assert_eq!(r.result, InterpretResult::RuntimeError);
    assert_eq!(r.stdout, "1\n");
    assert_eq!(r.stderr, "Operand must be a number.\n[line 2] in script\n");
    let s = run("var a = 1;\n\na = a + nil;");
    assert_eq!(s.stderr, "Operands must be two numbers or two strings.\n[line 3] in script\n");
    let t = run("1 < \"x\";");
    assert_eq!(t.stderr, "Operands must be numbers.\n[line 1] in script\n");
    let u = run("x = 1;");
    assert_eq!(u.stderr, "Undefined variable 'x'.\n[line 1] in script\n");
    let v = run("print 2 * \"x\";");
    assert_eq!(v.stderr, "Operands must be numbers.\n[line 1] in script\n");
}

#[test]
fn an_endless_loop_only_spends_its_budget() {
    let source = "while (true) {}";
    let mut vm = interpret(source.to_string(), literals_of(source));
    for _ in 0..10 {
        match vm.run(1000) {
            Signal::Continue => {}
            _ => panic!("the loop ended"),
        }
    }
    assert_eq!(vm.result, None);
    assert_eq!(vm.stack.len(), 1);
}

#[test]
fn the_machine_starts_with_the_compiled_script() {
    let source = "print 1;";
    let vm = interpret(source.to_string(), literals_of(source));
    assert_eq!(vm.result, None);
    assert_eq!(vm.frames.len(), 1);
    let script = vm.frames[0];
    assert_eq!(script.ip, 0);
    assert_eq!(script.slot_base, 0);
    assert_eq!(vm.stack, vec![Value::Obj(script.function)]);
    assert_eq!(script.chunk(&vm.obj_array).code, vec![0, 0, 14, 7, 1]);
    assert!(vm.diagnostics.is_empty());
}

#[test]
fn after_a_compile_error_the_machine_has_stopped() {
    let source = "var;";
    let mut vm = interpret(source.to_string(), literals_of(source));
    assert_eq!(vm.result, Some(InterpretResult::CompileError));
    assert_eq!(vm.obj_array.len(), 0);
    match vm.run(5) {
        Signal::Halt(InterpretResult::CompileError) => {}
        _ => panic!("the machine ran"),
    }
}

#[test]
fn strings_may_hold_any_bytes_but_a_quote() {
    let r = run("// caf\u{e9}\nprint \"h\u{e9}llo \u{1f600}\" + \"!\";");
    assert_eq!(r.result, InterpretResult::Success);
    assert_eq!(r.stdout, "h\u{e9}llo \u{1f600}!\n");
}

#[test]
fn assignment_is_an_expression() {
    let r = run("var a; var b; print a = b = 3; print a; { var c; print c = a + 1; }");
    assert_eq!(r.result, InterpretResult::Success);
    assert_eq!(r.stdout, "3\n3\n4\n");
}

#[test]
fn division_by_zero_is_infinite() {
    let r = run("print 1 / 0; print -1 / 0; print 1 / 0 > 5;");
    assert_eq!(r.result, InterpretResult::Success);
    assert_eq!(r.stdout, "inf\n-inf\ntrue\n");
}

#[test]
fn the_longest_loop_jumps_back_to_its_condition() {
    // From the condition to behind the loop instruction there are 20 bytes
    // besides the padding: 3 for `!nil;` and 2 for each `nil;`.
    let mut source = String::from("var i = 0; while (i < 2) { i = i + 1; !nil; ");
    for _ in 0..32756 {
        source.push_str("nil;");
    }
    source.push_str("} print i;");
    let vm = interpret(source.clone(), literals_of(&source));
    assert_eq!(vm.result, None);
    let code = vm.frames[0].chunk(&vm.obj_array).code.clone();
    let loop_at = code.len() - 9;
    assert_eq!(&code[loop_at..loop_at + 3], &[OpCode::Loop.to_byte(), 0xff, 0xff]);
    let r = run(&source);
    assert_eq!(r.result, InterpretResult::Success);
    assert_eq!(r.stdout, "2\n");
}

#[test]
fn statements_leave_the_stack_as_they_found_it() {
    let sources = [
        "print 1 + 2 * 3;",
        "var a = 1; { var b = a; { var c = b; print c; } } a = 2;",
        "var x = 0; for (var i = 0; i < 3; i = i + 1) { var y = i; x = x + y; } print x;",
        "if (true and nil or 1) print 1; else print 2; while (false) {}",
    ];
    for source in sources {
        let mut vm = interpret(source.to_string(), literals_of(source));
        let mut depth_before_last_step = 0;
        loop {
            let depth = vm.stack.len();
            match vm.step() {
                Signal::Arithmetic { op, left, right } => {
                    let a = f64::from_bits(left);
                    let b = f64::from_bits(right);
                    let value = match op {
                        OpCode::Add => a + b,
                        OpCode::Multiply => a * b,
                        _ => panic!("an unexpected operator"),
                    };
                    vm.resume(Value::Number(value.to_bits()));
                }
                Signal::Halt(result) => {
                    assert_eq!(result, InterpretResult::Success);
                    depth_before_last_step = depth;
                    break;
                }
                _ => {}
            }
        }
        // The script itself and the `nil` that it returns.
        assert_eq!(depth_before_last_step, 2, "{}", source);
    }
}
