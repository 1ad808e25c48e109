//! Bytecode: the instruction set and the chunk that holds code, constants
//! and the source line of every byte.

use vstd::prelude::*;
use crate::value::Value;
use crate::value::ValueArray;

verus! {

/// The instructions. Each is one byte; some are followed by an operand of
/// one or two bytes.
#[derive(Debug, Clone, Copy, PartialEq, Eq, Structural)]
pub enum OpCode {
    Constant,
    Return,
    Negate,
    Add,
    Subtract,
    Multiply,
    Divide,
    Nil,
    True,
    False,
    Not,
    Equal,
    Greater,
    Less,
    Print,
    Pop,
    DefineGlobal,
    GetGlobal,
    SetGlobal,
    GetLocal,
    SetLocal,
    Jump,
    JumpIfFalse,
    Loop,
    Call,
}

/// The byte that stands for an instruction: its place in the declaration.
pub open spec fn opcode_byte(op: OpCode) -> u8 {
    match op {
        OpCode::Constant => 0,
        OpCode::Return => 1,
        OpCode::Negate => 2,
        OpCode::Add => 3,
        OpCode::Subtract => 4,
        OpCode::Multiply => 5,
        OpCode::Divide => 6,
        OpCode::Nil => 7,
        OpCode::True => 8,
        OpCode::False => 9,
        OpCode::Not => 10,
        OpCode::Equal => 11,
        OpCode::Greater => 12,
        OpCode::Less => 13,
        OpCode::Print => 14,
        OpCode::Pop => 15,
        OpCode::DefineGlobal => 16,
        OpCode::GetGlobal => 17,
        OpCode::SetGlobal => 18,
        OpCode::GetLocal => 19,
        OpCode::SetLocal => 20,
        OpCode::Jump => 21,
        OpCode::JumpIfFalse => 22,
        OpCode::Loop => 23,
        OpCode::Call => 24,
    }
}

/// The instruction that a byte stands for, if any.
pub open spec fn opcode_of(byte: u8) -> Option<OpCode> {
    if byte == 0 {
        Some(OpCode::Constant)
    } else if byte == 1 {
        Some(OpCode::Return)
    } else if byte == 2 {
        Some(OpCode::Negate)
    } else if byte == 3 {
        Some(OpCode::Add)
    } else if byte == 4 {
        Some(OpCode::Subtract)
    } else if byte == 5 {
        Some(OpCode::Multiply)
    } else if byte == 6 {
        Some(OpCode::Divide)
    } else if byte == 7 {
        Some(OpCode::Nil)
    } else if byte == 8 {
        Some(OpCode::True)
    } else if byte == 9 {
        Some(OpCode::False)
    } else if byte == 10 {
        Some(OpCode::Not)
    } else if byte == 11 {
        Some(OpCode::Equal)
    } else if byte == 12 {
        Some(OpCode::Greater)
    } else if byte == 13 {
        Some(OpCode::Less)
    } else if byte == 14 {
        Some(OpCode::Print)
    } else if byte == 15 {
        Some(OpCode::Pop)
    } else if byte == 16 {
        Some(OpCode::DefineGlobal)
    } else if byte == 17 {
        Some(OpCode::GetGlobal)
    } else if byte == 18 {
        Some(OpCode::SetGlobal)
    } else if byte == 19 {
        Some(OpCode::GetLocal)
    } else if byte == 20 {
        Some(OpCode::SetLocal)
    } else if byte == 21 {
        Some(OpCode::Jump)
    } else if byte == 22 {
        Some(OpCode::JumpIfFalse)
    } else if byte == 23 {
        Some(OpCode::Loop)
    } else if byte == 24 {
        Some(OpCode::Call)
    } else {
        None
    }
}

/// How many operand bytes follow an instruction.
pub open spec fn operand_width(op: OpCode) -> int {
    match op {
        OpCode::Constant | OpCode::DefineGlobal | OpCode::GetGlobal | OpCode::SetGlobal
        | OpCode::GetLocal | OpCode::SetLocal | OpCode::Call => 1,
        OpCode::Jump | OpCode::JumpIfFalse | OpCode::Loop => 2,
        _ => 0,
    }
}

impl OpCode {
    /// The byte that stands for this instruction.
    pub fn to_byte(self) -> (r: u8)
        ensures
            r == opcode_byte(self),
    {
        match self {
            OpCode::Constant => 0,
            OpCode::Return => 1,
            OpCode::Negate => 2,
            OpCode::Add => 3,
            OpCode::Subtract => 4,
            OpCode::Multiply => 5,
            OpCode::Divide => 6,
            OpCode::Nil => 7,
            OpCode::True => 8,
            OpCode::False => 9,
            OpCode::Not => 10,
            OpCode::Equal => 11,
            OpCode::Greater => 12,
            OpCode::Less => 13,
            OpCode::Print => 14,
            OpCode::Pop => 15,
            OpCode::DefineGlobal => 16,
            OpCode::GetGlobal => 17,
            OpCode::SetGlobal => 18,
            OpCode::GetLocal => 19,
            OpCode::SetLocal => 20,
            OpCode::Jump => 21,
            OpCode::JumpIfFalse => 22,
            OpCode::Loop => 23,
            OpCode::Call => 24,
        }
    }

    /// The instruction that `byte` stands for, if any.
    pub fn from_byte(byte: u8) -> (r: Option<OpCode>)
        ensures
            r == opcode_of(byte),
    {
        match byte {
            0 => Some(OpCode::Constant),
            1 => Some(OpCode::Return),
            2 => Some(OpCode::Negate),
            3 => Some(OpCode::Add),
            4 => Some(OpCode::Subtract),
            5 => Some(OpCode::Multiply),
            6 => Some(OpCode::Divide),
            7 => Some(OpCode::Nil),
            8 => Some(OpCode::True),
            9 => Some(OpCode::False),
            10 => Some(OpCode::Not),
            11 => Some(OpCode::Equal),
            12 => Some(OpCode::Greater),
            13 => Some(OpCode::Less),
            14 => Some(OpCode::Print),
            15 => Some(OpCode::Pop),
            16 => Some(OpCode::DefineGlobal),
            17 => Some(OpCode::GetGlobal),
            18 => Some(OpCode::SetGlobal),
            19 => Some(OpCode::GetLocal),
            20 => Some(OpCode::SetLocal),
            21 => Some(OpCode::Jump),
            22 => Some(OpCode::JumpIfFalse),
            23 => Some(OpCode::Loop),
            24 => Some(OpCode::Call),
            _ => None,
        }
    }
}

/// Decoding undoes encoding, and only an instruction's own byte decodes to it.
pub proof fn lemma_opcode_round_trip(op: OpCode, byte: u8)
    ensures
        opcode_of(opcode_byte(op)) == Some(op),
        opcode_of(byte) == Some(op) ==> opcode_byte(op) == byte,
{
}

/// A unit of compiled code: the bytes, the constants they name, and the
/// source line of each byte.
pub struct Chunk {
    pub code: Vec<u8>,
    pub constants: ValueArray,
    pub lines: Vec<i32>,
}

/// What a chunk holds.
pub struct ChunkView {
    pub code: Seq<u8>,
    pub constants: Seq<Value>,
    pub lines: Seq<i32>,
}

impl View for Chunk {
    type V = ChunkView;

    open spec fn view(&self) -> ChunkView {
        ChunkView { code: self.code@, constants: self.constants@, lines: self.lines@ }
    }
}

impl ChunkView {
    /// The chunk without code or constants.
    pub open spec fn empty() -> ChunkView {
        ChunkView {
            code: Seq::<u8>::empty(),
            constants: Seq::<Value>::empty(),
            lines: Seq::<i32>::empty(),
        }
    }

    /// Every byte of code has its source line.
    pub open spec fn wf(self) -> bool {
        self.lines.len() == self.code.len()
    }

    /// The chunk with one more byte of code, which came from `line`.
    pub open spec fn write(self, byte: u8, line: i32) -> ChunkView {
        ChunkView { code: self.code.push(byte), lines: self.lines.push(line), ..self }
    }

    /// The chunk with one more constant.
    pub open spec fn add_constant(self, value: Value) -> ChunkView {
        ChunkView { constants: self.constants.push(value), ..self }
    }
}

impl Default for Chunk {
    fn default() -> (r: Chunk)
        ensures
            r@ == ChunkView::empty(),
    {
        Chunk { code: Vec::new(), constants: ValueArray::default(), lines: Vec::new() }
    }
}

impl Chunk {
    /// Every byte of code has its source line.
    pub open spec fn wf(&self) -> bool {
        self@.wf()
    }

    /// Appends one byte of code together with the source line it came from.
    pub fn write_chunk(&mut self, code: u8, line: i32)
        ensures
            final(self)@ == old(self)@.write(code, line),
            old(self).wf() ==> final(self).wf(),
    {
        self.code.push(code);
        self.lines.push(line);
    }

    /// Appends a constant and returns its index in the pool.
    pub fn add_constant(&mut self, value: Value) -> (index: usize)
        ensures
            final(self)@ == old(self)@.add_constant(value),
            index == old(self)@.constants.len(),
    {
        self.constants.write(value);
        self.constants.values.len() - 1
    }
}

/// Writing keeps the line table as long as the code: every byte that is
/// emitted has its line.
pub proof fn lemma_every_byte_has_its_line(chunk: ChunkView, byte: u8, line: i32, value: Value)
    requires
        chunk.wf(),
    ensures
        ChunkView::empty().wf(),
        chunk.write(byte, line).wf(),
        chunk.write(byte, line).lines.len() == chunk.lines.len() + 1,
        chunk.write(byte, line).lines.last() == line,
        chunk.add_constant(value).wf(),
{
}

} // verus!
