use rustlox::chunk::Chunk;
use rustlox::chunk::OpCode;
use rustlox::value::Value;
use rustlox::vm::fetch;
use rustlox::vm::Fetch;

fn all_opcodes() -> Vec<OpCode> {
    vec![
        OpCode::Constant,
        OpCode::Return,
        OpCode::Negate,
        OpCode::Add,
        OpCode::Subtract,
        OpCode::Multiply,
        OpCode::Divide,
        OpCode::Nil,
        OpCode::True,
        OpCode::False,
        OpCode::Not,
        OpCode::Equal,
        OpCode::Greater,
        OpCode::Less,
        OpCode::Print,
        OpCode::Pop,
        OpCode::DefineGlobal,
        OpCode::GetGlobal,
        OpCode::SetGlobal,
        OpCode::GetLocal,
        OpCode::SetLocal,
        OpCode::Jump,
        OpCode::JumpIfFalse,
        OpCode::Loop,
        OpCode::Call,
    ]
}

#[test]
fn opcodes_are_numbered_in_order() {
    for (i, op) in all_opcodes().iter().enumerate() {
        assert_eq!(op.to_byte() as usize, i);
    }
}

#[test]
fn opcode_round_trip() {
    for op in all_opcodes() {
        assert_eq!(OpCode::from_byte(op.to_byte()), Some(op));
    }
    for byte in 0u8..=255 {
        match OpCode::from_byte(byte) {
            Some(op) => assert_eq!(op.to_byte(), byte),
            None => assert!(byte >= 25),
        }
    }
}

#[test]
fn unknown_bytes_decode_to_nothing() {
    assert_eq!(OpCode::from_byte(25), None);
    assert_eq!(OpCode::from_byte(255), None);
}

#[test]
fn chunk_starts_empty() {
    let chunk = Chunk::default();
    assert!(chunk.code.is_empty());
    assert!(chunk.lines.is_empty());
    assert!(chunk.constants.values.is_empty());
}

#[test]
fn every_byte_has_its_line() {
    let mut chunk = Chunk::default();
    chunk.write_chunk(7, 1);
    chunk.write_chunk(1, 1);
    chunk.write_chunk(14, 3);
    assert_eq!(chunk.code, vec![7, 1, 14]);
    assert_eq!(chunk.lines, vec![1, 1, 3]);
    assert_eq!(chunk.code.len(), chunk.lines.len());
}

#[test]
fn constants_get_consecutive_indices() {
    let mut chunk = Chunk::default();
    assert_eq!(chunk.add_constant(Value::Nil), 0);
    assert_eq!(chunk.add_constant(Value::Number(5)), 1);
    assert_eq!(chunk.add_constant(Value::Nil), 2);
    assert_eq!(chunk.constants.values, vec![Value::Nil, Value::Number(5), Value::Nil]);
    assert!(chunk.code.is_empty());
}

#[test]
fn constant_pool_itself_has_no_limit() {
    let mut chunk = Chunk::default();
    for i in 0..300 {
        assert_eq!(chunk.add_constant(Value::Number(i as u64)), i);
    }
}

#[test]
fn fetch_reads_operands() {
    let code = vec![
        OpCode::Nil.to_byte(),
        OpCode::Constant.to_byte(),
        9,
        OpCode::Jump.to_byte(),
        0x12,
        0x34,
        200,
        OpCode::Loop.to_byte(),
        1,
    ];
    assert_eq!(fetch(&code, 0), Fetch::Instruction { op: OpCode::Nil, operand: 0, next: 1 });
    assert_eq!(fetch(&code, 1), Fetch::Instruction { op: OpCode::Constant, operand: 9, next: 3 });
    assert_eq!(fetch(&code, 3), Fetch::Instruction { op: OpCode::Jump, operand: 0x1234, next: 6 });
    assert_eq!(fetch(&code, 6), Fetch::Unknown(200));
    assert_eq!(fetch(&code, 7), Fetch::End);
    assert_eq!(fetch(&code, 9), Fetch::End);
    assert_eq!(fetch(&code, 100), Fetch::End);
}

#[test]
fn fetch_reads_the_largest_operand() {
    let code = vec![OpCode::JumpIfFalse.to_byte(), 0xff, 0xff];
    assert_eq!(
        fetch(&code, 0),
        Fetch::Instruction { op: OpCode::JumpIfFalse, operand: 65535, next: 3 }
    );
}
