use rustlox::chunk::Chunk;
use rustlox::chunk::OpCode;
use rustlox::debug::disassemble_chunk;
use rustlox::debug::disassemble_instruction;
use rustlox::debug::name_of;
use rustlox::value::Value;

fn chunk_of(code: &[(u8, i32)], constants: &[Value]) -> Chunk {
    let mut chunk = Chunk::default();
    for (byte, line) in code {
        chunk.write_chunk(*byte, *line);
    }
    for value in constants {
        chunk.add_constant(*value);
    }
    chunk
}

fn text_at(chunk: &Chunk, offset: usize) -> String {
    String::from_utf8(disassemble_instruction(chunk, offset).text).unwrap()
}

#[test]
fn simple_instruction_is_padded_to_16() {
    let chunk = chunk_of(&[(OpCode::Return.to_byte(), 123)], &[]);
    let line = disassemble_instruction(&chunk, 0);
    assert_eq!(String::from_utf8(line.text).unwrap(), format!("{:04} {:4} {:16}", 0, 123, "OP_RETURN"));
    assert_eq!(line.constant, None);
    assert_eq!(line.next, 1);
}

#[test]
fn constant_instruction_ends_in_a_quote() {
    let chunk = chunk_of(
        &[(OpCode::Nil.to_byte(), 1), (OpCode::Constant.to_byte(), 1), (0, 1)],
        &[Value::Number(5)],
    );
    let line = disassemble_instruction(&chunk, 1);
    assert_eq!(
        String::from_utf8(line.text).unwrap(),
        format!("{:04}    | {:16} {:4} '", 1, "OP_CONSTANT", 0)
    );
    assert_eq!(line.constant, Some(Value::Number(5)));
    assert_eq!(line.next, 3);
}

#[test]
fn a_constant_that_the_pool_lacks_is_left_out() {
    let chunk = chunk_of(&[(OpCode::GetGlobal.to_byte(), 1), (9, 1)], &[Value::Nil]);
    let line = disassemble_instruction(&chunk, 0);
    assert_eq!(
        String::from_utf8(line.text).unwrap(),
        "0000    1 OP_GET_GLOBAL       9 '"
    );
    assert_eq!(line.constant, None);
}

#[test]
fn byte_and_jump_instructions_show_their_operand() {
    let chunk = chunk_of(
        &[
            (OpCode::GetLocal.to_byte(), 7),
            (3, 7),
            (OpCode::Loop.to_byte(), 8),
            (0x01, 8),
            (0x02, 8),
            (OpCode::JumpIfFalse.to_byte(), 8),
            (0xff, 8),
            (0xff, 8),
        ],
        &[],
    );
    assert_eq!(text_at(&chunk, 0), "0000    7 OP_GET_LOCAL        3");
    assert_eq!(text_at(&chunk, 2), "0002    8 OP_LOOP           258");
    assert_eq!(text_at(&chunk, 5), "0005    | OP_JUMP_IF_FALSE 65535");
}

#[test]
fn equal_lines_are_elided() {
    let chunk = chunk_of(
        &[
            (OpCode::Nil.to_byte(), 1),
            (OpCode::Pop.to_byte(), 1),
            (OpCode::Nil.to_byte(), 2),
            (OpCode::Pop.to_byte(), 2),
            (OpCode::Return.to_byte(), 12345),
        ],
        &[],
    );
    let all: Vec<String> = disassemble_chunk(&chunk)
        .into_iter()
        .map(|line| String::from_utf8(line.text).unwrap())
        .collect();
    assert_eq!(
        all,
        vec![
            "0000    1 OP_NIL          ",
            "0001    | OP_POP          ",
            "0002    2 OP_NIL          ",
            "0003    | OP_POP          ",
            "0004 12345 OP_RETURN       ",
        ]
    );
}

#[test]
fn unknown_and_truncated_instructions() {
    let chunk = chunk_of(&[(250, 1), (OpCode::Jump.to_byte(), 2), (0, 2)], &[]);
    let first = disassemble_instruction(&chunk, 0);
    assert_eq!(String::from_utf8(first.text).unwrap(), "0000    1 Unknown opcode 250");
    assert_eq!(first.next, 1);
    let second = disassemble_instruction(&chunk, 1);
    assert_eq!(String::from_utf8(second.text).unwrap(), "0001    2 Truncated instruction");
    assert_eq!(second.next, 3);
    assert_eq!(disassemble_chunk(&chunk).len(), 2);
}

#[test]
fn wide_offsets_are_not_cut() {
    let mut code = Vec::new();
    for _ in 0..10001 {
        code.push((OpCode::Nil.to_byte(), 1));
    }
    let chunk = chunk_of(&code, &[]);
    assert_eq!(text_at(&chunk, 10000), "10000    | OP_NIL          ");
    assert_eq!(text_at(&chunk, 42), "0042    | OP_NIL          ");
}

#[test]
fn an_empty_chunk_has_an_empty_listing() {
    assert!(disassemble_chunk(&Chunk::default()).is_empty());
}

#[test]
fn every_instruction_has_a_name() {
    for byte in 0u8..25 {
        let op = OpCode::from_byte(byte).unwrap();
        let name = name_of(op);
        assert!(name.starts_with("OP_"));
        assert!(name.len() <= 16);
    }
    assert_eq!(name_of(OpCode::DefineGlobal), "OP_DEFINE_GLOBAL");
    assert_eq!(name_of(OpCode::JumpIfFalse), "OP_JUMP_IF_FALSE");
}
