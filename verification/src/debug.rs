//! A listing of bytecode for people to read.
//!
//! Each instruction gives one line: its offset, the source line (or `|`
//! where that is the line of the byte before), its name and its operand.
//! An instruction that names a constant ends in an opening quote; whoever
//! prints the listing puts the constant and the closing quote behind it.

use vstd::prelude::*;
use vstd::string::*;
use crate::chunk::Chunk;
use crate::chunk::ChunkView;
use crate::chunk::OpCode;
use crate::text::append_bytes;
use crate::text::append_decimal;
use crate::text::decimal_text;
use crate::value::Value;
use crate::vm::Fetch;
use crate::vm::fetch;
use crate::vm::fetch_spec;

verus! {

/// `count` copies of `fill`.
pub open spec fn filler(fill: u8, count: int) -> Seq<u8> {
    Seq::new(
        if count > 0 {
            count as nat
        } else {
            0
        },
        |i: int| fill,
    )
}

/// `text` with `fill` before it, up to `width` bytes.
pub open spec fn padded_left(text: Seq<u8>, width: int, fill: u8) -> Seq<u8> {
    filler(fill, width - text.len()) + text
}

/// `text` with blanks behind it, up to `width` bytes.
pub open spec fn padded_right(text: Seq<u8>, width: int) -> Seq<u8> {
    text + filler(32, width - text.len())
}

/// The name of an instruction in a listing.
pub open spec fn opcode_name(op: OpCode) -> Seq<u8> {
    match op {
        OpCode::Constant => "OP_CONSTANT".spec_bytes(),
        OpCode::Return => "OP_RETURN".spec_bytes(),
        OpCode::Negate => "OP_NEGATE".spec_bytes(),
        OpCode::Add => "OP_ADD".spec_bytes(),
        OpCode::Subtract => "OP_SUBTRACT".spec_bytes(),
        OpCode::Multiply => "OP_MULTIPLY".spec_bytes(),
        OpCode::Divide => "OP_DIVIDE".spec_bytes(),
        OpCode::Nil => "OP_NIL".spec_bytes(),
        OpCode::True => "OP_TRUE".spec_bytes(),
        OpCode::False => "OP_FALSE".spec_bytes(),
        OpCode::Not => "OP_NOT".spec_bytes(),
        OpCode::Equal => "OP_EQUAL".spec_bytes(),
        OpCode::Greater => "OP_GREATER".spec_bytes(),
        OpCode::Less => "OP_LESS".spec_bytes(),
        OpCode::Print => "OP_PRINT".spec_bytes(),
        OpCode::Pop => "OP_POP".spec_bytes(),
        OpCode::DefineGlobal => "OP_DEFINE_GLOBAL".spec_bytes(),
        OpCode::GetGlobal => "OP_GET_GLOBAL".spec_bytes(),
        OpCode::SetGlobal => "OP_SET_GLOBAL".spec_bytes(),
        OpCode::GetLocal => "OP_GET_LOCAL".spec_bytes(),
        OpCode::SetLocal => "OP_SET_LOCAL".spec_bytes(),
        OpCode::Jump => "OP_JUMP".spec_bytes(),
        OpCode::JumpIfFalse => "OP_JUMP_IF_FALSE".spec_bytes(),
        OpCode::Loop => "OP_LOOP".spec_bytes(),
        OpCode::Call => "OP_CALL".spec_bytes(),
    }
}

/// Whether the operand of an instruction is an index into the constants.
pub open spec fn names_constant(op: OpCode) -> bool {
    op == OpCode::Constant || op == OpCode::DefineGlobal || op == OpCode::GetGlobal || op
        == OpCode::SetGlobal
}

/// The column of source lines: the line of the byte at `offset`, or a bar
/// where the byte before it has the same.
pub open spec fn line_column(lines: Seq<i32>, offset: int) -> Seq<u8> {
    if offset > 0 && lines[offset] == lines[offset - 1] {
        "   | ".spec_bytes()
    } else {
        padded_left(decimal_text(lines[offset] as int), 4, 32) + " ".spec_bytes()
    }
}

/// What the listing says of the instruction itself.
pub open spec fn instruction_text(code: Seq<u8>, offset: usize) -> Seq<u8> {
    match fetch_spec(code, offset) {
        Fetch::End => "Truncated instruction".spec_bytes(),
        Fetch::Unknown(byte) => "Unknown opcode ".spec_bytes() + decimal_text(byte as int),
        Fetch::Instruction { op, operand, next } => if next == offset + 1 {
            padded_right(opcode_name(op), 16)
        } else {
            padded_right(opcode_name(op), 16) + " ".spec_bytes() + padded_left(
                decimal_text(operand as int),
                4,
                32,
            ) + (if names_constant(op) {
                " '".spec_bytes()
            } else {
                Seq::<u8>::empty()
            })
        },
    }
}

/// The constant that the instruction at `offset` names, if it names one
/// that the pool holds.
pub open spec fn instruction_constant(chunk: ChunkView, offset: usize) -> Option<Value> {
    match fetch_spec(chunk.code, offset) {
        Fetch::Instruction { op, operand, next } => if names_constant(op) && operand
            < chunk.constants.len() {
            Some(chunk.constants[operand as int])
        } else {
            None
        },
        _ => None,
    }
}

/// Where the listing goes on behind the instruction at `offset`: behind the
/// instruction, behind an unknown byte, or at the end of the code where the
/// instruction is cut short.
pub open spec fn instruction_end(code: Seq<u8>, offset: usize) -> int {
    match fetch_spec(code, offset) {
        Fetch::End => code.len() as int,
        Fetch::Unknown(_) => offset + 1,
        Fetch::Instruction { op, operand, next } => next as int,
    }
}

/// The line of the listing for the instruction at `offset`.
pub open spec fn listing_text(chunk: ChunkView, offset: usize) -> Seq<u8> {
    padded_left(decimal_text(offset as int), 4, 48) + " ".spec_bytes() + line_column(
        chunk.lines,
        offset as int,
    ) + instruction_text(chunk.code, offset)
}

/// One line of a listing.
pub struct Listing {
    /// The line, without the constant that may end it.
    pub text: Vec<u8>,
    /// The constant to print behind the text, followed by a closing quote.
    pub constant: Option<Value>,
    /// The offset of the next instruction.
    pub next: usize,
}

/// Appends `count` copies of `fill`.
fn append_filler(out: &mut Vec<u8>, fill: u8, count: usize)
    ensures
        final(out)@ == old(out)@ + filler(fill, count as int),
{
    let mut i: usize = 0;
    while i < count
        invariant
            i <= count,
            out@ == old(out)@ + filler(fill, i as int),
        decreases count - i,
    {
        out.push(fill);
        i += 1;
        assert(out@ =~= old(out)@ + filler(fill, i as int));
    }
}

/// Appends `n` in decimal, with `fill` before it up to `width` bytes.
fn append_number(out: &mut Vec<u8>, n: i128, width: usize, fill: u8)
    requires
        n > i128::MIN,
    ensures
        final(out)@ == old(out)@ + padded_left(decimal_text(n as int), width as int, fill),
{
    let mut digits: Vec<u8> = Vec::new();
    append_decimal(&mut digits, n);
    assert(digits@ =~= decimal_text(n as int));
    if digits.len() < width {
        append_filler(out, fill, width - digits.len());
    } else {
        assert(filler(fill, width - digits@.len()) =~= Seq::<u8>::empty());
    }
    append_bytes(out, digits.as_slice());
    assert(out@ =~= old(out)@ + padded_left(decimal_text(n as int), width as int, fill));
}

/// The name of an instruction in a listing.
pub fn name_of(op: OpCode) -> (name: &'static str)
    ensures
        name.spec_bytes() == opcode_name(op),
{
    match op {
        OpCode::Constant => "OP_CONSTANT",
        OpCode::Return => "OP_RETURN",
        OpCode::Negate => "OP_NEGATE",
        OpCode::Add => "OP_ADD",
        OpCode::Subtract => "OP_SUBTRACT",
        OpCode::Multiply => "OP_MULTIPLY",
        OpCode::Divide => "OP_DIVIDE",
        OpCode::Nil => "OP_NIL",
        OpCode::True => "OP_TRUE",
        OpCode::False => "OP_FALSE",
        OpCode::Not => "OP_NOT",
        OpCode::Equal => "OP_EQUAL",
        OpCode::Greater => "OP_GREATER",
        OpCode::Less => "OP_LESS",
        OpCode::Print => "OP_PRINT",
        OpCode::Pop => "OP_POP",
        OpCode::DefineGlobal => "OP_DEFINE_GLOBAL",
        OpCode::GetGlobal => "OP_GET_GLOBAL",
        OpCode::SetGlobal => "OP_SET_GLOBAL",
        OpCode::GetLocal => "OP_GET_LOCAL",
        OpCode::SetLocal => "OP_SET_LOCAL",
        OpCode::Jump => "OP_JUMP",
        OpCode::JumpIfFalse => "OP_JUMP_IF_FALSE",
        OpCode::Loop => "OP_LOOP",
        OpCode::Call => "OP_CALL",
    }
}

/// Appends the name of `op`, with blanks behind it up to 16 bytes.
fn simple_instruction(out: &mut Vec<u8>, op: OpCode)
    ensures
        final(out)@ == old(out)@ + padded_right(opcode_name(op), 16),
{
    let name = name_of(op).as_bytes();
    append_bytes(out, name);
    if name.len() < 16 {
        append_filler(out, 32, 16 - name.len());
    } else {
        assert(filler(32, 16 - name@.len()) =~= Seq::<u8>::empty());
    }
    assert(out@ =~= old(out)@ + padded_right(opcode_name(op), 16));
}

/// Appends the name of `op` and its operand.
fn byte_instruction(out: &mut Vec<u8>, op: OpCode, operand: u16)
    ensures
        final(out)@ == old(out)@ + padded_right(opcode_name(op), 16) + " ".spec_bytes()
            + padded_left(decimal_text(operand as int), 4, 32),
{
    simple_instruction(out, op);
    append_bytes(out, " ".as_bytes());
    append_number(out, operand as i128, 4, 32);
}

/// Appends the name of `op`, the index of its constant and the opening
/// quote.
fn constant_instruction(out: &mut Vec<u8>, op: OpCode, operand: u16)
    ensures
        final(out)@ == old(out)@ + padded_right(opcode_name(op), 16) + " ".spec_bytes()
            + padded_left(decimal_text(operand as int), 4, 32) + " '".spec_bytes(),
{
    byte_instruction(out, op, operand);
    append_bytes(out, " '".as_bytes());
}

/// Appends what the listing says of the instruction at `offset` itself,
/// and returns the constant that it names and where the next one begins.
fn append_instruction(text: &mut Vec<u8>, chunk: &Chunk, offset: usize) -> (r: (
    Option<Value>,
    usize,
))
    requires
        offset < chunk@.code.len(),
    ensures
        final(text)@ == old(text)@ + instruction_text(chunk@.code, offset),
        r.0 == instruction_constant(chunk@, offset),
        r.1 == instruction_end(chunk@.code, offset),
        offset < r.1 <= chunk@.code.len(),
{
    let length = chunk.code.len();
    match fetch(&chunk.code, offset) {
        Fetch::End => {
            append_bytes(text, "Truncated instruction".as_bytes());
            (None, length)
        },
        Fetch::Unknown(byte) => {
            append_bytes(text, "Unknown opcode ".as_bytes());
            append_decimal(text, byte as i128);
            assert(text@ =~= old(text)@ + instruction_text(chunk@.code, offset));
            (None, offset + 1)
        },
        Fetch::Instruction { op, operand, next } => {
            if next == offset + 1 {
                simple_instruction(text, op);
                (None, next)
            } else {
                match op {
                    OpCode::Constant
                    | OpCode::DefineGlobal
                    | OpCode::GetGlobal
                    | OpCode::SetGlobal => {
                        constant_instruction(text, op, operand);
                        assert(text@ =~= old(text)@ + instruction_text(chunk@.code, offset));
                        if (operand as usize) < chunk.constants.values.len() {
                            (Some(chunk.constants.values[operand as usize]), next)
                        } else {
                            (None, next)
                        }
                    },
                    _ => {
                        byte_instruction(text, op, operand);
                        assert(text@ =~= old(text)@ + instruction_text(chunk@.code, offset));
                        (None, next)
                    },
                }
            }
        },
    }
}

/// The line of the listing for the instruction at `offset`.
pub fn disassemble_instruction(chunk: &Chunk, offset: usize) -> (listing: Listing)
    requires
        chunk.wf(),
        offset < chunk@.code.len(),
    ensures
        listing.text@ == listing_text(chunk@, offset),
        listing.constant == instruction_constant(chunk@, offset),
        listing.next == instruction_end(chunk@.code, offset),
        offset < listing.next <= chunk@.code.len(),
{
    let mut text: Vec<u8> = Vec::new();
    append_number(&mut text, offset as i128, 4, 48);
    append_bytes(&mut text, " ".as_bytes());
    if offset > 0 && chunk.lines[offset] == chunk.lines[offset - 1] {
        append_bytes(&mut text, "   | ".as_bytes());
    } else {
        append_number(&mut text, chunk.lines[offset] as i128, 4, 32);
        append_bytes(&mut text, " ".as_bytes());
    }
    let ghost head = text@;
    assert(head =~= padded_left(decimal_text(offset as int), 4, 48) + " ".spec_bytes()
        + line_column(chunk@.lines, offset as int));
    let (constant, next) = append_instruction(&mut text, chunk, offset);
    assert(text@ =~= listing_text(chunk@, offset));
    Listing { text, constant, next }
}

/// The listing of the instructions from `offset` on.
pub open spec fn listing_from(chunk: ChunkView, offset: usize) -> Seq<(Seq<u8>, Option<Value>)>
    decreases chunk.code.len() - offset,
{
    let next = instruction_end(chunk.code, offset);
    if offset >= chunk.code.len() || next <= offset || next > chunk.code.len() || next
        > usize::MAX {
        Seq::<(Seq<u8>, Option<Value>)>::empty()
    } else {
        seq![(listing_text(chunk, offset), instruction_constant(chunk, offset))] + listing_from(
            chunk,
            next as usize,
        )
    }
}

/// The listing of a whole chunk, one entry for each instruction.
pub fn disassemble_chunk(chunk: &Chunk) -> (listing: Vec<Listing>)
    requires
        chunk.wf(),
    ensures
        listing@.len() == listing_from(chunk@, 0).len(),
        forall|i: int|
            0 <= i < listing@.len() ==> (#[trigger] listing@[i]).text@ == listing_from(
                chunk@,
                0,
            )[i].0 && listing@[i].constant == listing_from(chunk@, 0)[i].1,
{
    let mut out: Vec<Listing> = Vec::new();
    let mut i: usize = 0;
    let ghost mut done: Seq<(Seq<u8>, Option<Value>)> = Seq::empty();
    assert(done + listing_from(chunk@, 0) =~= listing_from(chunk@, 0));
    while i < chunk.code.len()
        invariant
            chunk.wf(),
            i <= chunk@.code.len(),
            listing_from(chunk@, 0) == done + listing_from(chunk@, i),
            out@.len() == done.len(),
            forall|k: int|
                0 <= k < out@.len() ==> (#[trigger] out@[k]).text@ == done[k].0 && out@[k].constant
                    == done[k].1,
        decreases chunk@.code.len() - i,
    {
        let line = disassemble_instruction(chunk, i);
        proof {
            let entry = (listing_text(chunk@, i), instruction_constant(chunk@, i));
            assert(listing_from(chunk@, i) == seq![entry] + listing_from(chunk@, line.next));
            assert(done + (seq![entry] + listing_from(chunk@, line.next)) =~= done.push(entry)
                + listing_from(chunk@, line.next));
            done = done.push(entry);
        }
        i = line.next;
        out.push(line);
    }
    assert(done + listing_from(chunk@, i) =~= done);
    out
}

} // verus!
