use rustlox::chunk::Chunk;
use rustlox::chunk::OpCode;
use rustlox::compiler::compile;
use rustlox::compiler::number_literals;
use rustlox::compiler::rules_table;
use rustlox::compiler::ParseFn;
use rustlox::compiler::Precedence;
use rustlox::object::ObjArray;
use rustlox::value::Value;

struct Compiled {
    ok: bool,
    chunk: Chunk,
    heap: ObjArray,
    report: String,
}

fn literals_of(source: &str) -> Vec<u64> {
    number_literals(source.to_string())
        .iter()
        .map(|text| std::str::from_utf8(text).unwrap().parse::<f64>().unwrap().to_bits())
        .collect()
}

fn compiled(source: &str) -> Compiled {
    let mut chunk = Chunk::default();
    let mut heap = ObjArray::default();
    let mut report = Vec::new();
    let ok = compile(source.to_string(), literals_of(source), &mut chunk, &mut heap, &mut report);
    assert_eq!(chunk.code.len(), chunk.lines.len());
    Compiled { ok, chunk, heap, report: String::from_utf8(report).unwrap() }
}

fn code(ops: &[u8]) -> Vec<u8> {
    ops.to_vec()
}

const CONSTANT: u8 = 0;
const RETURN: u8 = 1;
const NEGATE: u8 = 2;
const ADD: u8 = 3;
const SUBTRACT: u8 = 4;
const MULTIPLY: u8 = 5;
const DIVIDE: u8 = 6;
const NIL: u8 = 7;
const TRUE: u8 = 8;
const FALSE: u8 = 9;
const NOT: u8 = 10;
const EQUAL: u8 = 11;
const GREATER: u8 = 12;
const LESS: u8 = 13;
const PRINT: u8 = 14;
const POP: u8 = 15;
const DEFINE_GLOBAL: u8 = 16;
const GET_GLOBAL: u8 = 17;
const SET_GLOBAL: u8 = 18;
const GET_LOCAL: u8 = 19;
const SET_LOCAL: u8 = 20;
const JUMP: u8 = 21;
const JUMP_IF_FALSE: u8 = 22;
const LOOP: u8 = 23;

fn number(x: f64) -> Value {
    Value::Number(x.to_bits())
}

#[test]
fn names_of_the_instructions() {
    assert_eq!(OpCode::Loop.to_byte(), LOOP);
    assert_eq!(OpCode::JumpIfFalse.to_byte(), JUMP_IF_FALSE);
    assert_eq!(OpCode::SetLocal.to_byte(), SET_LOCAL);
    assert_eq!(OpCode::DefineGlobal.to_byte(), DEFINE_GLOBAL);
}

#[test]
fn empty_source_returns_nil() {
    let c = compiled("");
    assert!(c.ok);
    assert_eq!(c.chunk.code, code(&[NIL, RETURN]));
    assert_eq!(c.report, "");
    assert_eq!(c.heap.len(), 0);
}

#[test]
fn number_literals_are_found_in_order() {
    let found = number_literals("var a = 1.5; print 20 + a; // 3\n\"4\" 5.".to_string());
    assert_eq!(found, vec![b"1.5".to_vec(), b"20".to_vec(), b"5".to_vec()]);
    assert!(number_literals("print nil;".to_string()).is_empty());
}

#[test]
fn arithmetic_follows_precedence() {
    let c = compiled("print 1 + 2 * 3;");
    assert!(c.ok);
    assert_eq!(
        c.chunk.code,
        code(&[CONSTANT, 0, CONSTANT, 1, CONSTANT, 2, MULTIPLY, ADD, PRINT, NIL, RETURN])
    );
    assert_eq!(c.chunk.constants.values, vec![number(1.0), number(2.0), number(3.0)]);
}

#[test]
fn operators_of_one_precedence_group_to_the_left() {
    let c = compiled("1 - 2 - 3;");
    assert_eq!(
        c.chunk.code,
        code(&[CONSTANT, 0, CONSTANT, 1, SUBTRACT, CONSTANT, 2, SUBTRACT, POP, NIL, RETURN])
    );
    let d = compiled("8 / 4 * 2;");
    assert_eq!(
        d.chunk.code,
        code(&[CONSTANT, 0, CONSTANT, 1, DIVIDE, CONSTANT, 2, MULTIPLY, POP, NIL, RETURN])
    );
}

#[test]
fn grouping_overrides_precedence() {
    let c = compiled("(1 + 2) * 3;");
    assert!(c.ok);
    assert_eq!(
        c.chunk.code,
        code(&[CONSTANT, 0, CONSTANT, 1, ADD, CONSTANT, 2, MULTIPLY, POP, NIL, RETURN])
    );
}

#[test]
fn unary_operators() {
    let c = compiled("-1; !true; !-2;");
    assert!(c.ok);
    assert_eq!(
        c.chunk.code,
        code(&[
            CONSTANT, 0, NEGATE, POP, TRUE, NOT, POP, CONSTANT, 1, NEGATE, NOT, POP, NIL, RETURN
        ])
    );
}

#[test]
fn unary_binds_tighter_than_binary() {
    let c = compiled("-1 + 2;");
    assert_eq!(
        c.chunk.code,
        code(&[CONSTANT, 0, NEGATE, CONSTANT, 1, ADD, POP, NIL, RETURN])
    );
}

#[test]
fn literals() {
    let c = compiled("nil; true; false;");
    assert_eq!(c.chunk.code, code(&[NIL, POP, TRUE, POP, FALSE, POP, NIL, RETURN]));
}

#[test]
fn comparison_operators() {
    let c = compiled("1 == 2; 1 != 2; 1 < 2; 1 <= 2; 1 > 2; 1 >= 2;");
    assert!(c.ok);
    assert_eq!(
        c.chunk.code,
        code(&[
            CONSTANT, 0, CONSTANT, 1, EQUAL, POP, CONSTANT, 2, CONSTANT, 3, EQUAL, NOT, POP,
            CONSTANT, 4, CONSTANT, 5, LESS, POP, CONSTANT, 6, CONSTANT, 7, GREATER, NOT, POP,
            CONSTANT, 8, CONSTANT, 9, GREATER, POP, CONSTANT, 10, CONSTANT, 11, LESS, NOT, POP,
            NIL, RETURN,
        ])
    );
}

#[test]
fn string_literal_is_interned_without_quotes() {
    let c = compiled("print \"hi\";");
    assert!(c.ok);
    assert_eq!(c.chunk.code, code(&[CONSTANT, 0, PRINT, NIL, RETURN]));
    assert_eq!(c.chunk.constants.values, vec![Value::Obj(0)]);
    assert_eq!(c.heap.string_bytes(0), b"hi".to_vec());
}

#[test]
fn equal_string_literals_share_one_object() {
    let c = compiled("print \"same\"; print \"other\"; print \"same\";");
    assert!(c.ok);
    assert_eq!(c.chunk.constants.values, vec![Value::Obj(0), Value::Obj(1), Value::Obj(0)]);
    assert_eq!(c.heap.len(), 2);
}

#[test]
fn a_name_and_a_string_with_its_text_share_one_object() {
    let c = compiled("var a = \"a\";");
    assert!(c.ok);
    assert_eq!(c.chunk.constants.values, vec![Value::Obj(0), Value::Obj(0)]);
    assert_eq!(c.chunk.code, code(&[CONSTANT, 1, DEFINE_GLOBAL, 0, NIL, RETURN]));
}

#[test]
fn global_variables() {
    let c = compiled("var a; var b = 1; a = b; print a;");
    assert!(c.ok);
    assert_eq!(
        c.chunk.code,
        code(&[
            NIL, DEFINE_GLOBAL, 0, CONSTANT, 2, DEFINE_GLOBAL, 1, GET_GLOBAL, 4, SET_GLOBAL, 3,
            POP, GET_GLOBAL, 5, PRINT, NIL, RETURN,
        ])
    );
    assert_eq!(c.heap.string_bytes(0), b"a".to_vec());
    assert_eq!(c.heap.string_bytes(1), b"b".to_vec());
    assert_eq!(c.heap.len(), 2);
}

#[test]
fn local_variables_live_in_slots_above_the_function() {
    let c = compiled("{ var a = 1; var b = a; b = 2; print b; }");
    assert!(c.ok);
    assert_eq!(
        c.chunk.code,
        code(&[
            CONSTANT, 0, GET_LOCAL, 1, CONSTANT, 1, SET_LOCAL, 2, POP, GET_LOCAL, 2, PRINT, POP,
            POP, NIL, RETURN,
        ])
    );
    assert_eq!(c.heap.len(), 0);
}

#[test]
fn inner_local_shadows_outer() {
    let c = compiled("{ var a; { var a; a; } a; }");
    assert!(c.ok);
    assert_eq!(
        c.chunk.code,
        code(&[NIL, NIL, GET_LOCAL, 2, POP, POP, GET_LOCAL, 1, POP, POP, NIL, RETURN])
    );
}

#[test]
fn and_skips_the_right_operand() {
    let c = compiled("true and false;");
    assert!(c.ok);
    assert_eq!(
        c.chunk.code,
        code(&[TRUE, JUMP_IF_FALSE, 0, 2, POP, FALSE, POP, NIL, RETURN])
    );
}

#[test]
fn or_skips_the_right_operand() {
    let c = compiled("true or false;");
    assert!(c.ok);
    assert_eq!(
        c.chunk.code,
        code(&[TRUE, JUMP_IF_FALSE, 0, 3, JUMP, 0, 2, POP, FALSE, POP, NIL, RETURN])
    );
}

#[test]
fn if_without_else() {
    let c = compiled("if (true) print 1;");
    assert!(c.ok);
    assert_eq!(
        c.chunk.code,
        code(&[
            TRUE, JUMP_IF_FALSE, 0, 7, POP, CONSTANT, 0, PRINT, JUMP, 0, 1, POP, NIL, RETURN
        ])
    );
}

#[test]
fn if_with_else() {
    let c = compiled("if (false) nil; else true;");
    assert!(c.ok);
    assert_eq!(
        c.chunk.code,
        code(&[
            FALSE, JUMP_IF_FALSE, 0, 6, POP, NIL, POP, JUMP, 0, 3, POP, TRUE, POP, NIL, RETURN
        ])
    );
}

#[test]
fn while_loops_back_to_the_condition() {
    let c = compiled("while (false) nil;");
    assert!(c.ok);
    assert_eq!(
        c.chunk.code,
        code(&[FALSE, JUMP_IF_FALSE, 0, 6, POP, NIL, POP, LOOP, 0, 10, POP, NIL, RETURN])
    );
}

#[test]
fn for_with_all_clauses() {
    let c = compiled("for (var i = 0; i < 3; i = i + 1) print i;");
    assert!(c.ok);
    assert_eq!(
        c.chunk.code,
        code(&[
            CONSTANT, 0, // var i = 0
            GET_LOCAL, 1, CONSTANT, 1, LESS, // i < 3
            JUMP_IF_FALSE, 0, 21, POP, //
            JUMP, 0, 11, // over the increment
            GET_LOCAL, 1, CONSTANT, 2, ADD, SET_LOCAL, 1, POP, // i = i + 1
            LOOP, 0, 23, // to the condition
            GET_LOCAL, 1, PRINT, // body
            LOOP, 0, 17, // to the increment
            POP, // the condition
            POP, // i
            NIL, RETURN,
        ])
    );
}

#[test]
fn for_without_clauses() {
    let c = compiled("for (;;) nil;");
    assert!(c.ok);
    assert_eq!(c.chunk.code, code(&[NIL, POP, LOOP, 0, 5, NIL, RETURN]));
}

#[test]
fn for_with_expression_initializer_and_no_increment() {
    let c = compiled("var i; for (i = 0; false;) nil;");
    assert!(c.ok);
    assert_eq!(
        c.chunk.code,
        code(&[
            NIL, DEFINE_GLOBAL, 0, CONSTANT, 2, SET_GLOBAL, 1, POP, FALSE, JUMP_IF_FALSE, 0, 6,
            POP, NIL, POP, LOOP, 0, 10, POP, NIL, RETURN,
        ])
    );
}

#[test]
fn lines_follow_the_source() {
    let c = compiled("print 1;\n\nprint\n2;");
    assert!(c.ok);
    assert_eq!(c.chunk.code, code(&[CONSTANT, 0, PRINT, CONSTANT, 1, PRINT, NIL, RETURN]));
    assert_eq!(c.chunk.lines, vec![1, 1, 1, 4, 4, 4, 4, 4]);
}

#[test]
fn assignment_is_right_associative() {
    let c = compiled("var a; var b; a = b = 1;");
    assert!(c.ok);
    assert_eq!(
        c.chunk.code,
        code(&[
            NIL, DEFINE_GLOBAL, 0, NIL, DEFINE_GLOBAL, 1, CONSTANT, 4, SET_GLOBAL, 3, SET_GLOBAL,
            2, POP, NIL, RETURN,
        ])
    );
}

#[test]
fn missing_expression() {
    let c = compiled("print ;");
    assert!(!c.ok);
    assert_eq!(c.report, "[line 1] Error at ';': Expect expression.\n");
}

#[test]
fn missing_semicolon_at_end() {
    let c = compiled("print 1");
    assert!(!c.ok);
    assert_eq!(c.report, "[line 1] Error at end: Expect ';' after value.\n");
}

#[test]
fn missing_semicolon_after_expression() {
    let c = compiled("1 2;");
    assert!(!c.ok);
    assert_eq!(c.report, "[line 1] Error at '2': Expect ';' after value.\n");
}

#[test]
fn missing_semicolon_after_declaration() {
    let c = compiled("var a = 1\nprint a;");
    assert!(!c.ok);
    assert_eq!(c.report, "[line 2] Error at 'print': Expect ';' after variable declaration.\n");
}

#[test]
fn missing_variable_name() {
    let c = compiled("var 1 = 2;");
    assert!(!c.ok);
    assert_eq!(c.report, "[line 1] Error at '1': Expect variable name.\n");
}

#[test]
fn missing_parentheses() {
    assert_eq!(compiled("(1;").report, "[line 1] Error at ';': Expect ')' after expression.\n");
    assert_eq!(compiled("if true) 1;").report, "[line 1] Error at 'true': Expect '(' after 'if'.\n");
    assert_eq!(compiled("if (true 1;").report, "[line 1] Error at '1': Expect ')' after condition.\n");
    assert_eq!(compiled("while 1) 1;").report, "[line 1] Error at '1': Expect '(' after 'while'.\n");
    assert_eq!(compiled("for 1) 1;").report, "[line 1] Error at '1': Expect '(' after 'for'.\n");
    assert_eq!(
        compiled("for (;1 2").report,
        "[line 1] Error at '2': Expect ';' after loop condition.\n"
    );
    assert_eq!(
        compiled("for (;;1 2").report,
        "[line 1] Error at '2': Expect ')' after for clauses.\n"
    );
}

#[test]
fn an_error_behind_a_semicolon_is_reported_anew() {
    assert_eq!(
        compiled("for (;1 2;) 1;").report,
        "[line 1] Error at '2': Expect ';' after loop condition.\n\
         [line 1] Error at ')': Expect expression.\n"
    );
}

#[test]
fn missing_brace() {
    let c = compiled("{ print 1;");
    assert!(!c.ok);
    assert_eq!(c.report, "[line 1] Error at end: Expect '}' after block.\n");
}

#[test]
fn invalid_assignment_target() {
    let c = compiled("var a; var b; a + b = 1;");
    assert!(!c.ok);
    assert_eq!(c.report, "[line 1] Error at '=': Invalid assignment target.\n");
}

#[test]
fn redeclaration_in_one_scope() {
    let c = compiled("{ var a; var a; }");
    assert!(!c.ok);
    assert_eq!(c.report, "[line 1] Error at 'a': Already a variable with this name in this scope.\n");
    assert!(compiled("{ var a; { var a; } }").ok);
    assert!(compiled("var a; var a;").ok);
}

#[test]
fn local_in_its_own_initializer() {
    let c = compiled("{ var a = a; }");
    assert!(!c.ok);
    assert_eq!(
        c.report,
        "[line 1] Error at 'a': Can't read local variable in its own initializer.\n"
    );
    assert!(compiled("var a = a;").ok);
}

#[test]
fn scanner_errors_are_reported() {
    let c = compiled("print @;");
    assert!(!c.ok);
    assert_eq!(
        c.report,
        "[line 1] Error at 'Unexpected character.'\n"
    );
    let d = compiled("print \"abc;\n");
    assert!(!d.ok);
    assert_eq!(d.report, "[line 2] Error at 'Unterminated string.'\n");
}

#[test]
fn panic_mode_reports_one_error_for_each_statement() {
    let c = compiled("print 1 2 3 4;\nprint 5;\nvar 6;\nprint +;");
    assert!(!c.ok);
    assert_eq!(
        c.report,
        "[line 1] Error at '2': Expect ';' after value.\n\
         [line 3] Error at '6': Expect variable name.\n\
         [line 4] Error at '+': Expect expression.\n"
    );
}

#[test]
fn synchronizing_stops_before_a_statement_keyword() {
    let c = compiled("(1 print 2;");
    assert!(!c.ok);
    assert_eq!(c.report, "[line 1] Error at 'print': Expect ')' after expression.\n");
    assert_eq!(c.chunk.code, code(&[CONSTANT, 0, POP, CONSTANT, 1, PRINT, NIL, RETURN]));
}

#[test]
fn synchronizing_stops_behind_a_semicolon() {
    let c = compiled("1 + print 2; 3 +;");
    assert!(!c.ok);
    assert_eq!(
        c.report,
        "[line 1] Error at 'print': Expect expression.\n\
         [line 1] Error at ';': Expect expression.\n"
    );
}

#[test]
fn keywords_without_a_production_are_no_expressions() {
    for word in ["class", "fun", "return", "super", "this", "else"] {
        let source = format!("{} x;", word);
        let c = compiled(&source);
        assert!(!c.ok);
        assert_eq!(c.report, format!("[line 1] Error at '{}': Expect expression.\n", word));
    }
}

fn repeated(statement: &str, count: usize) -> String {
    let mut source = String::with_capacity(statement.len() * count);
    for _ in 0..count {
        source.push_str(statement);
    }
    source
}

#[test]
fn pool_of_256_constants_compiles() {
    let c = compiled(&repeated("0;", 256));
    assert!(c.ok);
    assert_eq!(c.chunk.constants.values.len(), 256);
    assert_eq!(c.chunk.code[3 * 255], CONSTANT);
    assert_eq!(c.chunk.code[3 * 255 + 1], 255);
}

#[test]
fn constant_257_fails() {
    let c = compiled(&repeated("0;", 257));
    assert!(!c.ok);
    assert_eq!(c.report, "[line 1] Error at '0': Too many constants in one chunk.\n");
}

#[test]
fn locals_up_to_the_limit_compile() {
    let mut source = String::from("{");
    for i in 0..255 {
        source.push_str(&format!("var v{};", i));
    }
    source.push_str("v254; }");
    let c = compiled(&source);
    assert!(c.ok, "{}", c.report);
    let at = 255;
    assert_eq!(&c.chunk.code[at..at + 3], &[GET_LOCAL, 255, POP]);
}

#[test]
fn one_local_too_many_fails() {
    let mut source = String::from("{");
    for i in 0..256 {
        source.push_str(&format!("var v{};", i));
    }
    source.push('}');
    let c = compiled(&source);
    assert!(!c.ok);
    assert_eq!(c.report, "[line 1] Error at 'v255': Too many local variables in function.\n");
}

fn loop_with_padding(pairs: usize) -> String {
    // The condition takes 1 byte, the exit jump 3, its pop 1, `!nil;` 3,
    // each `nil;` 2, and the loop instruction itself 3.
    format!("while (false) {{ !nil; {} }}", repeated("nil;", pairs))
}

#[test]
fn loop_of_65535_bytes_compiles() {
    let c = compiled(&loop_with_padding(32762));
    assert!(c.ok, "{}", c.report);
    let end = c.chunk.code.len();
    assert_eq!(&c.chunk.code[end - 6..], &[LOOP, 0xff, 0xff, POP, NIL, RETURN]);
    assert_eq!(end - 3, 65535);
    assert_eq!(&c.chunk.code[1..4], &[JUMP_IF_FALSE, 0xff, 0xfb]);
}

#[test]
fn larger_loop_fails() {
    let c = compiled(&loop_with_padding(32763));
    assert!(!c.ok);
    assert_eq!(c.report, "[line 1] Error at '}': Loop body too large.\n");
}

#[test]
fn jump_over_65535_bytes_compiles() {
    // The jump skips the pop (1), the padding, and the jump over the else
    // branch (3).
    let source = format!("if (false) {{ !nil; {} }}", repeated("nil;", 32764));
    let c = compiled(&source);
    assert!(c.ok, "{}", c.report);
    assert_eq!(&c.chunk.code[1..4], &[JUMP_IF_FALSE, 0xff, 0xff]);
}

#[test]
fn longer_jump_fails() {
    let source = format!("if (false) {{ !nil; {} }}", repeated("nil;", 32765));
    let c = compiled(&source);
    assert!(!c.ok);
    assert_eq!(c.report, "[line 1] Error at '}': Too much code to jump over.\n");
}

#[test]
fn compiling_twice_gives_the_same_bytes() {
    let source = "var a = 1; { var b = a + 2; if (b > a) print \"more\"; else print b; }";
    let first = compiled(source);
    let second = compiled(source);
    assert!(first.ok);
    assert_eq!(first.chunk.code, second.chunk.code);
    assert_eq!(first.chunk.lines, second.chunk.lines);
    assert_eq!(first.chunk.constants.values, second.chunk.constants.values);
    assert_eq!(first.report, second.report);
}

#[test]
fn compile_appends_to_what_it_is_given() {
    let mut chunk = Chunk::default();
    chunk.write_chunk(POP, 9);
    let mut heap = ObjArray::default();
    let s = heap.copy_string(b"x");
    let mut report = b"earlier\n".to_vec();
    let ok = compile("print \"x\" +;".to_string(), Vec::new(), &mut chunk, &mut heap, &mut report);
    assert!(!ok);
    assert_eq!(chunk.code[0], POP);
    assert_eq!(chunk.constants.values, vec![Value::Obj(s)]);
    assert_eq!(heap.len(), 1);
    assert_eq!(
        String::from_utf8(report).unwrap(),
        "earlier\n[line 1] Error at ';': Expect expression.\n"
    );
}

#[test]
fn rule_table_has_a_rule_for_each_token() {
    let table = rules_table();
    assert_eq!(table.len(), 40);
    assert_eq!(table[0].prefix, Some(ParseFn::Grouping));
    assert_eq!(table[6].prefix, Some(ParseFn::Unary));
    assert_eq!(table[6].infix, Some(ParseFn::Binary));
    assert_eq!(table[6].precedence, Precedence::Term);
    assert_eq!(table[10].precedence, Precedence::Factor);
    assert_eq!(table[22].infix, Some(ParseFn::And));
    assert_eq!(table[30].precedence, Precedence::Or);
    assert_eq!(table[39].prefix, None);
    assert_eq!(table[39].precedence, Precedence::Lowest);
}

#[test]
fn precedence_ladder() {
    let ladder = [
        Precedence::Lowest,
        Precedence::Assignment,
        Precedence::Or,
        Precedence::And,
        Precedence::Equality,
        Precedence::Comparison,
        Precedence::Term,
        Precedence::Factor,
        Precedence::Unary,
        Precedence::Call,
        Precedence::Primary,
    ];
    for (i, p) in ladder.iter().enumerate() {
        assert_eq!(p.to_level() as usize, i);
        if i + 1 < ladder.len() {
            assert_eq!(p.next(), ladder[i + 1]);
        }
    }
    assert_eq!(Precedence::Primary.next(), Precedence::Primary);
}
