//! The virtual machine.
//!
//! The machine runs one instruction per `step`. Whatever it cannot do itself
//! it asks of the embedding program through the `Signal` it returns: writing
//! a line, arithmetic on doubles, a native function. After a request for a
//! value the program answers with `resume`. `VmView::step` is the whole
//! semantics; `VM::step` computes exactly that.

use vstd::prelude::*;
use vstd::string::*;
use std::collections::HashMap;
use crate::chunk::Chunk;
use crate::chunk::ChunkView;
use crate::chunk::OpCode;
use crate::chunk::opcode_of;
use crate::chunk::operand_width;
use crate::compiler::model::ParserView;
use crate::compiler::compile;
use crate::compiler::number_tokens;
use crate::object::FunctionView;
use crate::scanner::SOURCE_MAX;
use vstd::utf8::encode_utf8;
use crate::object::HeapObject;
use crate::object::NativeFn;
use crate::object::ObjArray;
use crate::object::ObjView;
use crate::object::interned;
use crate::object::string_index;
use crate::text::append_bytes;
use crate::text::append_decimal;
use crate::text::decimal_text;
use crate::value::Value;
use crate::value::falsey;
use crate::value::names_string;
use crate::value::negated_bits;
use crate::value::number_less;
use crate::value::number_lt;
use crate::value::number_neg;
use crate::value::value_text;
use crate::value::values_equal;

verus! {

/// The most call frames that can be live at once.
pub const FRAMES_MAX: usize = 64;

/// The most values that the stack can hold.
pub const STACK_MAX: usize = 16384;

/// The activation record of one call.
#[derive(Debug, Clone, Copy, PartialEq, Eq, Structural)]
pub struct CallFrame {
    /// The function object that is running.
    pub function: usize,
    /// The offset of the next instruction in that function's code.
    pub ip: usize,
    /// Where this call's slots begin on the stack; slot 0 holds the callee.
    pub slot_base: usize,
}

/// How interpreting a source ends.
#[derive(Debug, Clone, Copy, PartialEq, Eq, Structural)]
pub enum InterpretResult {
    Success,
    CompileError,
    RuntimeError,
}

/// What reading one instruction at an offset gives.
#[derive(Debug, Clone, Copy, PartialEq, Eq, Structural)]
pub enum Fetch {
    /// An instruction with its operand (0 where it has none) and the offset
    /// of the instruction after it.
    Instruction { op: OpCode, operand: u16, next: usize },
    /// A byte that stands for no instruction.
    Unknown(u8),
    /// The code ends before the instruction or its operand does.
    End,
}

/// The instruction at `ip`. A two-byte operand is big-endian.
pub open spec fn fetch_spec(code: Seq<u8>, ip: usize) -> Fetch {
    if ip >= code.len() {
        Fetch::End
    } else {
        match opcode_of(code[ip as int]) {
            None => Fetch::Unknown(code[ip as int]),
            Some(op) => {
                let width = operand_width(op);
                if ip + 1 + width > code.len() {
                    Fetch::End
                } else if width == 0 {
                    Fetch::Instruction { op, operand: 0, next: (ip + 1) as usize }
                } else if width == 1 {
                    Fetch::Instruction {
                        op,
                        operand: code[ip + 1] as u16,
                        next: (ip + 2) as usize,
                    }
                } else {
                    Fetch::Instruction {
                        op,
                        operand: (code[ip + 1] * 256 + code[ip + 2]) as u16,
                        next: (ip + 3) as usize,
                    }
                }
            },
        }
    }
}

/// Reads the instruction at `ip`.
pub fn fetch(code: &Vec<u8>, ip: usize) -> (r: Fetch)
    ensures
        r == fetch_spec(code@, ip),
{
    let len = code.len();
    if ip >= len {
        return Fetch::End;
    }
    let byte = code[ip];
    match OpCode::from_byte(byte) {
        None => Fetch::Unknown(byte),
        Some(op) => {
            match op {
                OpCode::Constant
                | OpCode::DefineGlobal
                | OpCode::GetGlobal
                | OpCode::SetGlobal
                | OpCode::GetLocal
                | OpCode::SetLocal
                | OpCode::Call => {
                    if len - ip < 2 {
                        Fetch::End
                    } else {
                        Fetch::Instruction { op, operand: code[ip + 1] as u16, next: ip + 2 }
                    }
                },
                OpCode::Jump | OpCode::JumpIfFalse | OpCode::Loop => {
                    if len - ip < 3 {
                        Fetch::End
                    } else {
                        let hi: u16 = code[ip + 1] as u16;
                        let lo: u16 = code[ip + 2] as u16;
                        Fetch::Instruction { op, operand: hi * 256 + lo, next: ip + 3 }
                    }
                },
                _ => Fetch::Instruction { op, operand: 0, next: ip + 1 },
            }
        },
    }
}

/// What the machine asks of the embedding program after a step.
pub enum Signal {
    /// Nothing: take the next step.
    Continue,
    /// A request for a value is outstanding: answer it with `resume`.
    Awaiting,
    /// Write this text and a newline to standard output.
    Print(Vec<u8>),
    /// Write this double and a newline to standard output.
    PrintNumber(u64),
    /// Compute `left op right` on doubles, `op` being `Add`, `Subtract`,
    /// `Multiply` or `Divide`, and hand the result to `resume`.
    Arithmetic { op: OpCode, left: u64, right: u64 },
    /// Call a native function with these arguments and hand its result to
    /// `resume`.
    Native { function: NativeFn, args: Vec<Value> },
    /// The machine has stopped, with this result.
    Halt(InterpretResult),
}

/// What a signal holds.
pub enum SignalView {
    Continue,
    Awaiting,
    Print(Seq<u8>),
    PrintNumber(u64),
    Arithmetic { op: OpCode, left: u64, right: u64 },
    Native { function: NativeFn, args: Seq<Value> },
    Halt(InterpretResult),
}

impl View for Signal {
    type V = SignalView;

    open spec fn view(&self) -> SignalView {
        match self {
            Signal::Continue => SignalView::Continue,
            Signal::Awaiting => SignalView::Awaiting,
            Signal::Print(text) => SignalView::Print(text@),
            Signal::PrintNumber(bits) => SignalView::PrintNumber(*bits),
            Signal::Arithmetic { op, left, right } => SignalView::Arithmetic {
                op: *op,
                left: *left,
                right: *right,
            },
            Signal::Native { function, args } => SignalView::Native {
                function: *function,
                args: args@,
            },
            Signal::Halt(result) => SignalView::Halt(*result),
        }
    }
}

/// The machine: the value stack, the frames of the calls in progress, the
/// globals, and the heap.
pub struct VM {
    pub stack: Vec<Value>,
    pub frames: Vec<CallFrame>,
    /// The global variables, keyed by the interned string that names each.
    pub globals: HashMap<usize, Value>,
    pub obj_array: ObjArray,
    /// Whether a request for a value is outstanding.
    pub awaiting: bool,
    /// How the run ended, once it has.
    pub result: Option<InterpretResult>,
    /// What the run has written to standard error.
    pub diagnostics: Vec<u8>,
}

/// The state of the machine.
pub struct VmView {
    pub stack: Seq<Value>,
    pub frames: Seq<CallFrame>,
    pub globals: Map<usize, Value>,
    pub heap: Seq<ObjView>,
    pub awaiting: bool,
    pub result: Option<InterpretResult>,
    pub diagnostics: Seq<u8>,
}

impl View for VM {
    type V = VmView;

    open spec fn view(&self) -> VmView {
        VmView {
            stack: self.stack@,
            frames: self.frames@,
            globals: self.globals@,
            heap: self.obj_array@,
            awaiting: self.awaiting,
            result: self.result,
            diagnostics: self.diagnostics@,
        }
    }
}

/// The line of the instruction that a frame at `ip` has just read, or 0
/// where it has read none.
pub open spec fn line_before(chunk: ChunkView, ip: usize) -> i32 {
    if 0 < ip <= chunk.lines.len() {
        chunk.lines[ip - 1]
    } else {
        0
    }
}

/// One line of a stack trace: `[line N] in script`, or `[line N] in NAME()`.
pub open spec fn trace_line(heap: Seq<ObjView>, frame: CallFrame) -> Seq<u8> {
    let function = heap[frame.function as int]->Function_0;
    "[line ".spec_bytes() + decimal_text(line_before(function.chunk, frame.ip) as int)
        + "] in ".spec_bytes() + (match function.name {
        None => "script".spec_bytes(),
        Some(n) => heap[n as int]->String_0 + "()".spec_bytes(),
    }) + "\n".spec_bytes()
}

/// The trace of the first `depth` frames, the innermost first.
pub open spec fn trace(heap: Seq<ObjView>, frames: Seq<CallFrame>, depth: nat) -> Seq<u8>
    decreases depth,
{
    if depth == 0 {
        Seq::<u8>::empty()
    } else {
        trace_line(heap, frames[depth - 1]) + trace(heap, frames, (depth - 1) as nat)
    }
}

/// The message for a global that is read or assigned but not defined.
pub open spec fn undefined_variable(name: Seq<u8>) -> Seq<u8> {
    "Undefined variable '".spec_bytes() + name + "'.".spec_bytes()
}

/// The message for a call with the wrong number of arguments.
pub open spec fn wrong_arity(arity: u8, given: u16) -> Seq<u8> {
    "Expected ".spec_bytes() + decimal_text(arity as int) + " arguments but got ".spec_bytes()
        + decimal_text(given as int) + ".".spec_bytes()
}

/// The message for a byte that stands for no instruction.
pub open spec fn unknown_opcode(byte: u8) -> Seq<u8> {
    "Unknown opcode ".spec_bytes() + decimal_text(byte as int) + ".".spec_bytes()
}

impl VmView {
    /// Whether the frame runs a function of the heap.
    pub open spec fn frame_ok(self, frame: CallFrame) -> bool {
        frame.function < self.heap.len() && self.heap[frame.function as int] is Function
    }

    /// The stack and the frames are within their limits, a request leaves
    /// room for its answer, every frame runs a function, and a machine that
    /// has stopped holds nothing.
    pub open spec fn wf(self) -> bool {
        &&& self.stack.len() <= STACK_MAX
        &&& self.frames.len() <= FRAMES_MAX
        &&& self.awaiting ==> self.stack.len() < STACK_MAX
        &&& forall|k: int| 0 <= k < self.frames.len() ==> self.frame_ok(#[trigger] self.frames[k])
        &&& match self.result {
            Some(_) => self.stack.len() == 0 && self.frames.len() == 0 && self.globals
                == Map::<usize, Value>::empty() && self.heap.len() == 0 && !self.awaiting,
            None => self.frames.len() >= 1,
        }
    }

    /// The machine after it has stopped: stack, frames and globals are reset
    /// and every object is freed.
    pub open spec fn halted(self, result: InterpretResult, diagnostics: Seq<u8>) -> VmView {
        VmView {
            stack: Seq::<Value>::empty(),
            frames: Seq::<CallFrame>::empty(),
            globals: Map::<usize, Value>::empty(),
            heap: Seq::<ObjView>::empty(),
            awaiting: false,
            result: Some(result),
            diagnostics,
        }
    }

    /// A runtime error: the message, then the stack trace, go to standard
    /// error, and the machine stops.
    pub open spec fn fail(self, message: Seq<u8>) -> (VmView, SignalView) {
        (
            self.halted(
                InterpretResult::RuntimeError,
                self.diagnostics + message + "\n".spec_bytes() + trace(
                    self.heap,
                    self.frames,
                    self.frames.len(),
                ),
            ),
            SignalView::Halt(InterpretResult::RuntimeError),
        )
    }

    /// The runtime error for code that no compiler emits: an instruction
    /// that is cut short, an operand out of range, too few values on the
    /// stack.
    pub open spec fn malformed(self) -> (VmView, SignalView) {
        self.fail("Malformed bytecode.".spec_bytes())
    }

    /// The frame that is running.
    pub open spec fn frame(self) -> CallFrame {
        self.frames[self.frames.len() - 1]
    }

    /// The chunk of the function that is running.
    pub open spec fn chunk(self) -> ChunkView {
        (self.heap[self.frame().function as int]->Function_0).chunk
    }

    /// The machine with the running frame at another instruction.
    pub open spec fn with_ip(self, ip: usize) -> VmView {
        VmView {
            frames: self.frames.update(
                self.frames.len() - 1,
                CallFrame { ip, ..self.frame() },
            ),
            ..self
        }
    }

    /// The machine with another stack.
    pub open spec fn with_stack(self, stack: Seq<Value>) -> VmView {
        VmView { stack, ..self }
    }

    /// The value `distance` places below the top of the stack.
    pub open spec fn peek(self, distance: int) -> Value {
        self.stack[self.stack.len() - 1 - distance]
    }

    /// The stack without its top `count` values.
    pub open spec fn dropped(self, count: int) -> Seq<Value> {
        self.stack.subrange(0, self.stack.len() - count)
    }

    /// Pushes a value; on a full stack that is a runtime error.
    pub open spec fn push(self, value: Value) -> (VmView, SignalView) {
        if self.stack.len() >= STACK_MAX {
            self.fail("Stack overflow.".spec_bytes())
        } else {
            (self.with_stack(self.stack.push(value)), SignalView::Continue)
        }
    }

    /// The interned string that constant `index` names, for the instructions
    /// that take a global's name.
    pub open spec fn global_name(self, index: u16) -> Option<usize> {
        if index < self.chunk().constants.len() && names_string(
            self.chunk().constants[index as int],
            self.heap,
        ) {
            Some(self.chunk().constants[index as int]->Obj_0)
        } else {
            None
        }
    }

    /// `Constant` pushes the constant at `index`.
    pub open spec fn op_constant(self, index: u16) -> (VmView, SignalView) {
        if index < self.chunk().constants.len() {
            self.push(self.chunk().constants[index as int])
        } else {
            self.malformed()
        }
    }

    /// `Pop` drops the top of the stack.
    pub open spec fn op_pop(self) -> (VmView, SignalView) {
        if self.stack.len() >= 1 {
            (self.with_stack(self.dropped(1)), SignalView::Continue)
        } else {
            self.malformed()
        }
    }

    /// `GetLocal` pushes the value in a slot of the running frame.
    pub open spec fn op_get_local(self, slot: u16) -> (VmView, SignalView) {
        if self.frame().slot_base + slot < self.stack.len() {
            self.push(self.stack[self.frame().slot_base + slot])
        } else {
            self.malformed()
        }
    }

    /// `SetLocal` stores the top of the stack in a slot of the running
    /// frame, and leaves it on the stack.
    pub open spec fn op_set_local(self, slot: u16) -> (VmView, SignalView) {
        if self.frame().slot_base + slot < self.stack.len() {
            (
                self.with_stack(self.stack.update(self.frame().slot_base + slot, self.peek(0))),
                SignalView::Continue,
            )
        } else {
            self.malformed()
        }
    }

    /// `GetGlobal` pushes the value of a global, which must be defined.
    pub open spec fn op_get_global(self, index: u16) -> (VmView, SignalView) {
        match self.global_name(index) {
            None => self.malformed(),
            Some(name) => if self.globals.contains_key(name) {
                self.push(self.globals[name])
            } else {
                self.fail(undefined_variable(self.heap[name as int]->String_0))
            },
        }
    }

    /// `DefineGlobal` binds a global to the top of the stack, whether or
    /// not it was bound before, and pops.
    pub open spec fn op_define_global(self, index: u16) -> (VmView, SignalView) {
        match self.global_name(index) {
            None => self.malformed(),
            Some(name) => if self.stack.len() >= 1 {
                (
                    VmView {
                        globals: self.globals.insert(name, self.peek(0)),
                        stack: self.dropped(1),
                        ..self
                    },
                    SignalView::Continue,
                )
            } else {
                self.malformed()
            },
        }
    }

    /// `SetGlobal` stores the top of the stack in a global, which must be
    /// defined, and leaves it on the stack.
    pub open spec fn op_set_global(self, index: u16) -> (VmView, SignalView) {
        match self.global_name(index) {
            None => self.malformed(),
            Some(name) => if self.stack.len() < 1 {
                self.malformed()
            } else if self.globals.contains_key(name) {
                (
                    VmView { globals: self.globals.insert(name, self.peek(0)), ..self },
                    SignalView::Continue,
                )
            } else {
                self.fail(undefined_variable(self.heap[name as int]->String_0))
            },
        }
    }

    /// `Equal` replaces two values by whether they are equal.
    pub open spec fn op_equal(self) -> (VmView, SignalView) {
        if self.stack.len() >= 2 {
            (
                self.with_stack(
                    self.dropped(2).push(Value::Bool(values_equal(self.peek(1), self.peek(0)))),
                ),
                SignalView::Continue,
            )
        } else {
            self.malformed()
        }
    }

    /// `Greater` and `Less`: both operands must be numbers.
    pub open spec fn op_compare(self, op: OpCode) -> (VmView, SignalView) {
        if self.stack.len() < 2 {
            self.malformed()
        } else {
            match (self.peek(1), self.peek(0)) {
                (Value::Number(a), Value::Number(b)) => (
                    self.with_stack(
                        self.dropped(2).push(
                            Value::Bool(
                                if op == OpCode::Greater {
                                    number_less(b, a)
                                } else {
                                    number_less(a, b)
                                },
                            ),
                        ),
                    ),
                    SignalView::Continue,
                ),
                _ => self.fail("Operands must be numbers.".spec_bytes()),
            }
        }
    }

    /// `Add`, `Subtract`, `Multiply` and `Divide`. On two numbers the
    /// operands leave the stack and the embedding program is asked for the
    /// result. `Add` on two strings pushes their interned concatenation.
    pub open spec fn op_arithmetic(self, op: OpCode) -> (VmView, SignalView) {
        if self.stack.len() < 2 {
            self.malformed()
        } else if op == OpCode::Add && names_string(self.peek(0), self.heap) && names_string(
            self.peek(1),
            self.heap,
        ) {
            let joined = self.heap[self.peek(1)->Obj_0 as int]->String_0
                + self.heap[self.peek(0)->Obj_0 as int]->String_0;
            let heap = interned(self.heap, joined);
            (
                VmView {
                    heap,
                    stack: self.dropped(2).push(Value::Obj(string_index(heap, joined) as usize)),
                    ..self
                },
                SignalView::Continue,
            )
        } else {
            match (self.peek(1), self.peek(0)) {
                (Value::Number(a), Value::Number(b)) => (
                    VmView { stack: self.dropped(2), awaiting: true, ..self },
                    SignalView::Arithmetic { op, left: a, right: b },
                ),
                _ => if op == OpCode::Add {
                    self.fail("Operands must be two numbers or two strings.".spec_bytes())
                } else {
                    self.fail("Operands must be numbers.".spec_bytes())
                },
            }
        }
    }

    /// `Not` replaces a value by whether it is falsey.
    pub open spec fn op_not(self) -> (VmView, SignalView) {
        if self.stack.len() >= 1 {
            (
                self.with_stack(self.dropped(1).push(Value::Bool(falsey(self.peek(0))))),
                SignalView::Continue,
            )
        } else {
            self.malformed()
        }
    }

    /// `Negate` replaces a number by its negation.
    pub open spec fn op_negate(self) -> (VmView, SignalView) {
        if self.stack.len() < 1 {
            self.malformed()
        } else {
            match self.peek(0) {
                Value::Number(a) => (
                    self.with_stack(self.dropped(1).push(Value::Number(negated_bits(a)))),
                    SignalView::Continue,
                ),
                _ => self.fail("Operand must be a number.".spec_bytes()),
            }
        }
    }

    /// `Print` pops a value and asks for it to be written.
    pub open spec fn op_print(self) -> (VmView, SignalView) {
        if self.stack.len() < 1 {
            self.malformed()
        } else {
            match self.peek(0) {
                Value::Number(a) => (self.with_stack(self.dropped(1)), SignalView::PrintNumber(a)),
                Value::Obj(i) => if i < self.heap.len() {
                    (
                        self.with_stack(self.dropped(1)),
                        SignalView::Print(value_text(self.peek(0), self.heap)),
                    )
                } else {
                    self.malformed()
                },
                _ => (
                    self.with_stack(self.dropped(1)),
                    SignalView::Print(value_text(self.peek(0), self.heap)),
                ),
            }
        }
    }

    /// `Jump` moves forward by `offset`.
    pub open spec fn op_jump(self, offset: u16) -> (VmView, SignalView) {
        if self.frame().ip + offset <= self.chunk().code.len() {
            (self.with_ip((self.frame().ip + offset) as usize), SignalView::Continue)
        } else {
            self.malformed()
        }
    }

    /// `JumpIfFalse` moves forward by `offset` if the top of the stack is
    /// falsey, and leaves it there.
    pub open spec fn op_jump_if_false(self, offset: u16) -> (VmView, SignalView) {
        if self.stack.len() < 1 {
            self.malformed()
        } else if falsey(self.peek(0)) {
            self.op_jump(offset)
        } else {
            (self, SignalView::Continue)
        }
    }

    /// `Loop` moves back by `offset`.
    pub open spec fn op_loop(self, offset: u16) -> (VmView, SignalView) {
        if offset <= self.frame().ip {
            (self.with_ip((self.frame().ip - offset) as usize), SignalView::Continue)
        } else {
            self.malformed()
        }
    }

    /// `Call` calls what stands below the top `arg_count` values. A
    /// function gets a frame whose slot 0 is the function itself; the call
    /// fails if it takes another number of arguments, or if 64 frames are
    /// live. A native function is asked of the embedding program, its
    /// arguments and itself leaving the stack.
    pub open spec fn op_call(self, arg_count: u16) -> (VmView, SignalView) {
        if self.stack.len() < arg_count + 1 {
            self.malformed()
        } else {
            match self.peek(arg_count as int) {
                Value::Obj(callee) => if callee >= self.heap.len() {
                    self.malformed()
                } else {
                    match self.heap[callee as int] {
                        ObjView::Function(function) => if function.arity != arg_count {
                            self.fail(wrong_arity(function.arity, arg_count))
                        } else if self.frames.len() >= FRAMES_MAX {
                            self.fail("Stack overflow.".spec_bytes())
                        } else {
                            (
                                VmView {
                                    frames: self.frames.push(
                                        CallFrame {
                                            function: callee,
                                            ip: 0,
                                            slot_base: (self.stack.len() - arg_count - 1) as usize,
                                        },
                                    ),
                                    ..self
                                },
                                SignalView::Continue,
                            )
                        },
                        ObjView::Native(function) => (
                            VmView {
                                stack: self.dropped(arg_count + 1),
                                awaiting: true,
                                ..self
                            },
                            SignalView::Native {
                                function,
                                args: self.stack.subrange(
                                    self.stack.len() - arg_count,
                                    self.stack.len() as int,
                                ),
                            },
                        ),
                        ObjView::String(_) => self.fail("Can only call functions.".spec_bytes()),
                    }
                },
                _ => self.fail("Can only call functions.".spec_bytes()),
            }
        }
    }

    /// `Return` pops the result and drops the frame together with its slots.
    /// From the outermost frame the machine stops with `Success`; otherwise the
    /// result is pushed for the caller.
    pub open spec fn op_return(self) -> (VmView, SignalView) {
        if self.stack.len() < 1 {
            self.malformed()
        } else if self.frames.len() == 1 {
            (
                self.halted(InterpretResult::Success, self.diagnostics),
                SignalView::Halt(InterpretResult::Success),
            )
        } else {
            let kept = if self.frame().slot_base < self.stack.len() {
                self.stack.subrange(0, self.frame().slot_base as int)
            } else {
                self.dropped(1)
            };
            (
                VmView { frames: self.frames.drop_last(), stack: kept.push(self.peek(0)), ..self },
                SignalView::Continue,
            )
        }
    }

    /// What one instruction does, the frame's `ip` standing behind it.
    pub open spec fn execute(self, op: OpCode, operand: u16) -> (VmView, SignalView) {
        match op {
            OpCode::Constant => self.op_constant(operand),
            OpCode::Nil => self.push(Value::Nil),
            OpCode::True => self.push(Value::Bool(true)),
            OpCode::False => self.push(Value::Bool(false)),
            OpCode::Pop => self.op_pop(),
            OpCode::GetLocal => self.op_get_local(operand),
            OpCode::SetLocal => self.op_set_local(operand),
            OpCode::GetGlobal => self.op_get_global(operand),
            OpCode::DefineGlobal => self.op_define_global(operand),
            OpCode::SetGlobal => self.op_set_global(operand),
            OpCode::Equal => self.op_equal(),
            OpCode::Greater | OpCode::Less => self.op_compare(op),
            OpCode::Add | OpCode::Subtract | OpCode::Multiply | OpCode::Divide
                => self.op_arithmetic(op),
            OpCode::Not => self.op_not(),
            OpCode::Negate => self.op_negate(),
            OpCode::Print => self.op_print(),
            OpCode::Jump => self.op_jump(operand),
            OpCode::JumpIfFalse => self.op_jump_if_false(operand),
            OpCode::Loop => self.op_loop(operand),
            OpCode::Call => self.op_call(operand),
            OpCode::Return => self.op_return(),
        }
    }

    /// One step of the machine.
    pub open spec fn step(self) -> (VmView, SignalView) {
        match self.result {
            Some(result) => (self, SignalView::Halt(result)),
            None => if self.awaiting {
                (self, SignalView::Awaiting)
            } else {
                match fetch_spec(self.chunk().code, self.frame().ip) {
                    Fetch::End => self.malformed(),
                    Fetch::Unknown(byte) => self.fail(unknown_opcode(byte)),
                    Fetch::Instruction { op, operand, next } => self.with_ip(next).execute(
                        op,
                        operand,
                    ),
                }
            },
        }
    }

    /// The answer to an outstanding request goes on the stack.
    pub open spec fn resume(self, value: Value) -> VmView {
        if self.awaiting {
            VmView { stack: self.stack.push(value), awaiting: false, ..self }
        } else {
            self
        }
    }

    /// The machine with one more native function, bound to the global that
    /// `name` names.
    pub open spec fn define_native(self, name: Seq<u8>, function: NativeFn) -> VmView {
        let named = interned(self.heap, name);
        VmView {
            heap: named.push(ObjView::Native(function)),
            globals: self.globals.insert(
                string_index(named, name) as usize,
                Value::Obj(named.len() as usize),
            ),
            ..self
        }
    }

    /// The machine about to run the function `script` of `heap`: the script
    /// is in slot 0 of the one frame, and `clock` is defined.
    pub open spec fn start(heap: Seq<ObjView>, script: usize) -> VmView {
        (VmView {
            stack: seq![Value::Obj(script)],
            frames: seq![CallFrame { function: script, ip: 0, slot_base: 0 }],
            globals: Map::<usize, Value>::empty(),
            heap,
            awaiting: false,
            result: None,
            diagnostics: Seq::<u8>::empty(),
        }).define_native("clock".spec_bytes(), NativeFn::Clock)
    }

    /// Steps until the machine asks for something or `budget` steps are done.
    pub open spec fn run(self, budget: nat) -> (VmView, SignalView)
        decreases budget,
    {
        if budget == 0 {
            (self, SignalView::Continue)
        } else {
            let (next, signal) = self.step();
            if signal is Continue {
                next.run((budget - 1) as nat)
            } else {
                (next, signal)
            }
        }
    }
}

impl Default for CallFrame {
    fn default() -> (r: CallFrame)
        ensures
            r == (CallFrame { function: 0, ip: 0, slot_base: 0 }),
    {
        CallFrame { function: 0, ip: 0, slot_base: 0 }
    }
}

impl CallFrame {
    /// The chunk of the function that this frame runs.
    pub fn chunk<'a>(&self, heap: &'a ObjArray) -> (c: &'a Chunk)
        requires
            self.function < heap@.len(),
            heap@[self.function as int] is Function,
        ensures
            c@ == (heap@[self.function as int]->Function_0).chunk,
    {
        match &heap.heap[self.function] {
            HeapObject::Function(f) => &f.chunk,
            _ => unreached(),
        }
    }
}

impl VM {
    /// The heap and the state of the machine are well-formed.
    pub open spec fn wf(&self) -> bool {
        self.obj_array.wf() && self@.wf()
    }

    /// A machine that is about to run the function object `script`.
    pub fn new(obj_array: ObjArray, script: usize) -> (vm: VM)
        requires
            obj_array.wf(),
            script < obj_array@.len(),
            obj_array@[script as int] is Function,
        ensures
            vm.wf(),
            vm@ == VmView::start(obj_array@, script),
    {
        let mut stack: Vec<Value> = Vec::new();
        stack.push(Value::Obj(script));
        let mut frames: Vec<CallFrame> = Vec::new();
        frames.push(CallFrame { function: script, ip: 0, slot_base: 0 });
        let mut vm = VM {
            stack,
            frames,
            globals: HashMap::new(),
            obj_array,
            awaiting: false,
            result: None,
            diagnostics: Vec::new(),
        };
        assert(vm@ =~= (VmView {
            stack: seq![Value::Obj(script)],
            frames: seq![CallFrame { function: script, ip: 0, slot_base: 0 }],
            globals: Map::<usize, Value>::empty(),
            heap: obj_array@,
            awaiting: false,
            result: None,
            diagnostics: Seq::<u8>::empty(),
        }));
        vm.define_native("clock".as_bytes(), NativeFn::Clock);
        vm
    }

    /// Makes a native function known under the global `name`.
    pub fn define_native(&mut self, name: &[u8], function: NativeFn)
        requires
            old(self).wf(),
            old(self).result is None,
        ensures
            final(self).wf(),
            final(self)@ == old(self)@.define_native(name@, function),
    {
        broadcast use vstd::std_specs::hash::group_hash_axioms;

        let key = self.obj_array.copy_string(name);
        let native = self.obj_array.new_native(function);
        self.globals.insert(key, Value::Obj(native));
        proof {
            let named = interned(old(self)@.heap, name@);
            assert(named[key as int] == ObjView::String(name@));
            let chosen = string_index(named, name@);
            assert(named[chosen] == ObjView::String(name@));
            assert(chosen == key);
            assert(self@ =~= old(self)@.define_native(name@, function));
            assert forall|k: int| 0 <= k < self@.frames.len() implies self@.frame_ok(
                #[trigger] self@.frames[k],
            ) by {
                assert(old(self)@.frame_ok(old(self)@.frames[k]));
            }
        }
    }

    /// Stops the machine: resets the stack, the frames and the globals, then
    /// frees every object.
    fn halt(&mut self, result: InterpretResult) -> (signal: Signal)
        requires
            old(self).obj_array.wf(),
        ensures
            final(self).wf(),
            final(self)@ == old(self)@.halted(result, old(self)@.diagnostics),
            signal@ == SignalView::Halt(result),
    {
        broadcast use vstd::std_specs::hash::group_hash_axioms;

        self.stack.clear();
        self.frames.clear();
        self.globals.clear();
        self.obj_array.free_objects();
        self.awaiting = false;
        self.result = Some(result);
        assert(self@ =~= old(self)@.halted(result, old(self)@.diagnostics));
        Signal::Halt(result)
    }

    /// Appends the stack trace to the diagnostics.
    fn print_frames(&mut self)
        requires
            old(self).wf(),
        ensures
            final(self).wf(),
            final(self)@ == (VmView {
                diagnostics: old(self)@.diagnostics + trace(
                    old(self)@.heap,
                    old(self)@.frames,
                    old(self)@.frames.len(),
                ),
                ..old(self)@
            }),
    {
        let mut depth: usize = self.frames.len();
        while depth > 0
            invariant
                self.wf(),
                depth <= self.frames@.len(),
                self@ == (VmView { diagnostics: self@.diagnostics, ..old(self)@ }),
                self@.diagnostics + trace(self@.heap, self@.frames, depth as nat) == old(
                    self,
                )@.diagnostics + trace(old(self)@.heap, old(self)@.frames, old(self)@.frames.len()),
            decreases depth,
        {
            let ghost before = self@.diagnostics;
            depth -= 1;
            let frame = self.frames[depth];
            assert(self@.frame_ok(self@.frames[depth as int]));
            self.print_frame(&frame);
            assert(self@.diagnostics + trace(self@.heap, self@.frames, depth as nat) =~= before
                + trace(self@.heap, self@.frames, (depth + 1) as nat));
        }
        assert(self@.diagnostics + trace(self@.heap, self@.frames, 0) =~= self@.diagnostics);
        assert(self@ =~= (VmView {
            diagnostics: old(self)@.diagnostics + trace(
                old(self)@.heap,
                old(self)@.frames,
                old(self)@.frames.len(),
            ),
            ..old(self)@
        }));
    }

    /// Appends one line of the stack trace to the diagnostics.
    fn print_frame(&mut self, frame: &CallFrame)
        requires
            old(self).wf(),
            old(self)@.frame_ok(*frame),
        ensures
            final(self).wf(),
            final(self)@ == (VmView {
                diagnostics: old(self)@.diagnostics + trace_line(old(self)@.heap, *frame),
                ..old(self)@
            }),
    {
        let mut out: Vec<u8> = Vec::new();
        let chunk = frame.chunk(&self.obj_array);
        let line: i32 = if 0 < frame.ip && frame.ip <= chunk.lines.len() {
            chunk.lines[frame.ip - 1]
        } else {
            0
        };
        append_bytes(&mut out, "[line ".as_bytes());
        append_decimal(&mut out, line as i128);
        append_bytes(&mut out, "] in ".as_bytes());
        match &self.obj_array.heap[frame.function] {
            HeapObject::Function(f) => {
                match f.name {
                    None => {
                        append_bytes(&mut out, "script".as_bytes());
                    },
                    Some(n) => {
                        match &self.obj_array.heap[n] {
                            HeapObject::String(name) => {
                                append_bytes(&mut out, name.chars.as_slice());
                            },
                            _ => {},
                        }
                        append_bytes(&mut out, "()".as_bytes());
                    },
                }
            },
            _ => {},
        }
        append_bytes(&mut out, "\n".as_bytes());
        assert(out@ =~= trace_line(self@.heap, *frame));
        append_bytes(&mut self.diagnostics, out.as_slice());
        assert(self@ =~= (VmView {
            diagnostics: old(self)@.diagnostics + trace_line(old(self)@.heap, *frame),
            ..old(self)@
        }));
    }

    /// Reports a runtime error and stops the machine.
    fn runtime_error(&mut self, message: &[u8]) -> (signal: Signal)
        requires
            old(self).wf(),
        ensures
            final(self).wf(),
            (final(self)@, signal@) == old(self)@.fail(message@),
    {
        append_bytes(&mut self.diagnostics, message);
        append_bytes(&mut self.diagnostics, "\n".as_bytes());
        self.print_frames();
        let signal = self.halt(InterpretResult::RuntimeError);
        assert(self@.diagnostics =~= old(self)@.fail(message@).0.diagnostics);
        signal
    }

    fn malformed(&mut self) -> (signal: Signal)
        requires
            old(self).wf(),
        ensures
            final(self).wf(),
            (final(self)@, signal@) == old(self)@.malformed(),
    {
        self.runtime_error("Malformed bytecode.".as_bytes())
    }

    fn push(&mut self, value: Value) -> (signal: Signal)
        requires
            old(self).wf(),
            old(self).result is None,
            !old(self).awaiting,
        ensures
            final(self).wf(),
            (final(self)@, signal@) == old(self)@.push(value),
    {
        if self.stack.len() >= STACK_MAX {
            return self.runtime_error("Stack overflow.".as_bytes());
        }
        self.stack.push(value);
        Signal::Continue
    }

    /// The value `distance` places below the top of the stack.
    fn peek(&self, distance: usize) -> (value: Value)
        requires
            distance < self.stack@.len(),
        ensures
            value == self@.peek(distance as int),
    {
        self.stack[self.stack.len() - 1 - distance]
    }

    /// Takes the top `count` values off the stack.
    fn drop_values(&mut self, count: usize)
        requires
            count <= old(self).stack@.len(),
        ensures
            final(self)@ == old(self)@.with_stack(old(self)@.dropped(count as int)),
            final(self).obj_array == old(self).obj_array,
    {
        let len = self.stack.len();
        self.stack.truncate(len - count);
        assert(self@ =~= old(self)@.with_stack(old(self)@.dropped(count as int)));
    }

    fn op_pop(&mut self) -> (signal: Signal)
        requires
            old(self).wf(),
            old(self).result is None,
            !old(self).awaiting,
        ensures
            final(self).wf(),
            (final(self)@, signal@) == old(self)@.op_pop(),
    {
        if self.stack.len() < 1 {
            return self.malformed();
        }
        self.drop_values(1);
        Signal::Continue
    }
    /// The chunk of the function that is running.
    fn current_chunk(&self) -> (c: &Chunk)
        requires
            self.wf(),
            self.result is None,
        ensures
            c@ == self@.chunk(),
    {
        let frame = &self.frames[self.frames.len() - 1];
        assert(self@.frame_ok(self@.frames[self.frames@.len() - 1]));
        frame.chunk(&self.obj_array)
    }

    /// Moves the running frame to another instruction.
    fn set_ip(&mut self, ip: usize)
        requires
            old(self).wf(),
            old(self).result is None,
            !old(self).awaiting,
        ensures
            final(self).wf(),
            final(self)@ == old(self)@.with_ip(ip),
            final(self).obj_array == old(self).obj_array,
    {
        let top = self.frames.len() - 1;
        let frame = self.frames[top];
        assert(self@.frame_ok(self@.frames[top as int]));
        self.frames.set(top, CallFrame { function: frame.function, ip, slot_base: frame.slot_base });
        assert(self@ =~= old(self)@.with_ip(ip));
        assert forall|k: int| 0 <= k < self@.frames.len() implies self@.frame_ok(
            #[trigger] self@.frames[k],
        ) by {
            if k != top {
                assert(old(self)@.frame_ok(old(self)@.frames[k]));
            }
        }
    }

    /// The interned string that constant `index` names.
    fn global_name(&self, index: u16) -> (name: Option<usize>)
        requires
            self.wf(),
            self.result is None,
        ensures
            name == self@.global_name(index),
    {
        let chunk = self.current_chunk();
        if (index as usize) < chunk.constants.values.len() {
            let constant = chunk.constants.values[index as usize];
            if constant.is_string(&self.obj_array) {
                return Some(constant.as_object());
            }
        }
        None
    }

    /// Reports that no global has the name that the string at `name` holds.
    fn undefined(&mut self, name: usize) -> (signal: Signal)
        requires
            old(self).wf(),
            name < old(self)@.heap.len(),
            old(self)@.heap[name as int] is String,
        ensures
            final(self).wf(),
            (final(self)@, signal@) == old(self)@.fail(
                undefined_variable(old(self)@.heap[name as int]->String_0),
            ),
    {
        let mut message: Vec<u8> = Vec::new();
        append_bytes(&mut message, "Undefined variable '".as_bytes());
        let text = self.obj_array.string_bytes(name);
        append_bytes(&mut message, text.as_slice());
        append_bytes(&mut message, "'.".as_bytes());
        assert(message@ =~= undefined_variable(self@.heap[name as int]->String_0));
        self.runtime_error(message.as_slice())
    }

    fn op_constant(&mut self, index: u16) -> (signal: Signal)
        requires
            old(self).wf(),
            old(self).result is None,
            !old(self).awaiting,
        ensures
            final(self).wf(),
            (final(self)@, signal@) == old(self)@.op_constant(index),
    {
        let chunk = self.current_chunk();
        if (index as usize) < chunk.constants.values.len() {
            let constant = chunk.constants.values[index as usize];
            self.push(constant)
        } else {
            self.malformed()
        }
    }

    fn op_get_local(&mut self, slot: u16) -> (signal: Signal)
        requires
            old(self).wf(),
            old(self).result is None,
            !old(self).awaiting,
        ensures
            final(self).wf(),
            (final(self)@, signal@) == old(self)@.op_get_local(slot),
    {
        let base = self.frames[self.frames.len() - 1].slot_base;
        let len = self.stack.len();
        if base < len && (slot as usize) < len - base {
            let value = self.stack[base + slot as usize];
            self.push(value)
        } else {
            self.malformed()
        }
    }

    fn op_set_local(&mut self, slot: u16) -> (signal: Signal)
        requires
            old(self).wf(),
            old(self).result is None,
            !old(self).awaiting,
        ensures
            final(self).wf(),
            (final(self)@, signal@) == old(self)@.op_set_local(slot),
    {
        let base = self.frames[self.frames.len() - 1].slot_base;
        let len = self.stack.len();
        if base < len && (slot as usize) < len - base {
            let value = self.peek(0);
            self.stack.set(base + slot as usize, value);
            assert(self@ =~= old(self)@.op_set_local(slot).0);
            Signal::Continue
        } else {
            self.malformed()
        }
    }

    fn op_get_global(&mut self, index: u16) -> (signal: Signal)
        requires
            old(self).wf(),
            old(self).result is None,
            !old(self).awaiting,
        ensures
            final(self).wf(),
            (final(self)@, signal@) == old(self)@.op_get_global(index),
    {
        broadcast use vstd::std_specs::hash::group_hash_axioms;

        match self.global_name(index) {
            None => self.malformed(),
            Some(name) => {
                let found = match self.globals.get(&name) {
                    Some(value) => Some(*value),
                    None => None,
                };
                match found {
                    Some(value) => self.push(value),
                    None => self.undefined(name),
                }
            },
        }
    }

    fn op_define_global(&mut self, index: u16) -> (signal: Signal)
        requires
            old(self).wf(),
            old(self).result is None,
            !old(self).awaiting,
        ensures
            final(self).wf(),
            (final(self)@, signal@) == old(self)@.op_define_global(index),
    {
        broadcast use vstd::std_specs::hash::group_hash_axioms;

        match self.global_name(index) {
            None => self.malformed(),
            Some(name) => {
                if self.stack.len() < 1 {
                    return self.malformed();
                }
                let value = self.peek(0);
                self.globals.insert(name, value);
                self.drop_values(1);
                assert(self@ =~= old(self)@.op_define_global(index).0);
                Signal::Continue
            },
        }
    }

    fn op_set_global(&mut self, index: u16) -> (signal: Signal)
        requires
            old(self).wf(),
            old(self).result is None,
            !old(self).awaiting,
        ensures
            final(self).wf(),
            (final(self)@, signal@) == old(self)@.op_set_global(index),
    {
        broadcast use vstd::std_specs::hash::group_hash_axioms;

        match self.global_name(index) {
            None => self.malformed(),
            Some(name) => {
                if self.stack.len() < 1 {
                    return self.malformed();
                }
                if self.globals.contains_key(&name) {
                    let value = self.peek(0);
                    self.globals.insert(name, value);
                    assert(self@ =~= old(self)@.op_set_global(index).0);
                    Signal::Continue
                } else {
                    self.undefined(name)
                }
            },
        }
    }

    fn op_equal(&mut self) -> (signal: Signal)
        requires
            old(self).wf(),
            old(self).result is None,
            !old(self).awaiting,
        ensures
            final(self).wf(),
            (final(self)@, signal@) == old(self)@.op_equal(),
    {
        if self.stack.len() < 2 {
            return self.malformed();
        }
        let b = self.peek(0);
        let a = self.peek(1);
        self.drop_values(2);
        self.stack.push(Value::Bool(a.equals(b)));
        assert(self@ =~= old(self)@.op_equal().0);
        Signal::Continue
    }

    fn op_compare(&mut self, op: OpCode) -> (signal: Signal)
        requires
            old(self).wf(),
            old(self).result is None,
            !old(self).awaiting,
        ensures
            final(self).wf(),
            (final(self)@, signal@) == old(self)@.op_compare(op),
    {
        if self.stack.len() < 2 {
            return self.malformed();
        }
        match (self.peek(1), self.peek(0)) {
            (Value::Number(a), Value::Number(b)) => {
                let holds = match op {
                    OpCode::Greater => number_lt(b, a),
                    _ => number_lt(a, b),
                };
                self.drop_values(2);
                self.stack.push(Value::Bool(holds));
                assert(self@ =~= old(self)@.op_compare(op).0);
                Signal::Continue
            },
            _ => self.runtime_error("Operands must be numbers.".as_bytes()),
        }
    }

    /// Pops two strings and pushes their interned concatenation.
    fn concatenate(&mut self) -> (signal: Signal)
        requires
            old(self).wf(),
            old(self).result is None,
            !old(self).awaiting,
            old(self).stack@.len() >= 2,
            names_string(old(self)@.peek(0), old(self)@.heap),
            names_string(old(self)@.peek(1), old(self)@.heap),
        ensures
            final(self).wf(),
            (final(self)@, signal@) == old(self)@.op_arithmetic(OpCode::Add),
    {
        let bv = self.peek(0);
        let av = self.peek(1);
        let mut joined = av.as_str(&self.obj_array);
        let b = bv.as_str(&self.obj_array);
        append_bytes(&mut joined, b.as_slice());
        self.drop_values(2);
        let index = self.obj_array.copy_string(joined.as_slice());
        self.stack.push(Value::Obj(index));
        proof {
            let heap = interned(old(self)@.heap, joined@);
            assert(heap[index as int] == ObjView::String(joined@));
            let chosen = string_index(heap, joined@);
            assert(heap[chosen] == ObjView::String(joined@));
            assert(chosen == index);
            assert(self@ =~= old(self)@.op_arithmetic(OpCode::Add).0);
            assert forall|k: int| 0 <= k < self@.frames.len() implies self@.frame_ok(
                #[trigger] self@.frames[k],
            ) by {
                assert(old(self)@.frame_ok(old(self)@.frames[k]));
            }
        }
        Signal::Continue
    }

    fn op_arithmetic(&mut self, op: OpCode) -> (signal: Signal)
        requires
            old(self).wf(),
            old(self).result is None,
            !old(self).awaiting,
        ensures
            final(self).wf(),
            (final(self)@, signal@) == old(self)@.op_arithmetic(op),
    {
        if self.stack.len() < 2 {
            return self.malformed();
        }
        let is_add = match op {
            OpCode::Add => true,
            _ => false,
        };
        if is_add && self.peek(0).is_string(&self.obj_array) && self.peek(1).is_string(
            &self.obj_array,
        ) {
            return self.concatenate();
        }
        match (self.peek(1), self.peek(0)) {
            (Value::Number(a), Value::Number(b)) => {
                self.drop_values(2);
                self.awaiting = true;
                assert(self@ =~= old(self)@.op_arithmetic(op).0);
                Signal::Arithmetic { op, left: a, right: b }
            },
            _ => {
                if is_add {
                    self.runtime_error("Operands must be two numbers or two strings.".as_bytes())
                } else {
                    self.runtime_error("Operands must be numbers.".as_bytes())
                }
            },
        }
    }

    fn op_not(&mut self) -> (signal: Signal)
        requires
            old(self).wf(),
            old(self).result is None,
            !old(self).awaiting,
        ensures
            final(self).wf(),
            (final(self)@, signal@) == old(self)@.op_not(),
    {
        if self.stack.len() < 1 {
            return self.malformed();
        }
        let value = self.peek(0);
        self.drop_values(1);
        self.stack.push(Value::Bool(value.is_falsey()));
        assert(self@ =~= old(self)@.op_not().0);
        Signal::Continue
    }

    fn op_negate(&mut self) -> (signal: Signal)
        requires
            old(self).wf(),
            old(self).result is None,
            !old(self).awaiting,
        ensures
            final(self).wf(),
            (final(self)@, signal@) == old(self)@.op_negate(),
    {
        if self.stack.len() < 1 {
            return self.malformed();
        }
        match self.peek(0) {
            Value::Number(a) => {
                self.drop_values(1);
                self.stack.push(Value::Number(number_neg(a)));
                assert(self@ =~= old(self)@.op_negate().0);
                Signal::Continue
            },
            _ => self.runtime_error("Operand must be a number.".as_bytes()),
        }
    }

    fn op_print(&mut self) -> (signal: Signal)
        requires
            old(self).wf(),
            old(self).result is None,
            !old(self).awaiting,
        ensures
            final(self).wf(),
            (final(self)@, signal@) == old(self)@.op_print(),
    {
        if self.stack.len() < 1 {
            return self.malformed();
        }
        let value = self.peek(0);
        match value {
            Value::Number(a) => {
                self.drop_values(1);
                Signal::PrintNumber(a)
            },
            Value::Obj(i) => {
                if i < self.obj_array.len() {
                    match value.print(&self.obj_array) {
                        Some(text) => {
                            self.drop_values(1);
                            Signal::Print(text)
                        },
                        None => Signal::Continue,
                    }
                } else {
                    self.malformed()
                }
            },
            _ => {
                match value.print(&self.obj_array) {
                    Some(text) => {
                        self.drop_values(1);
                        Signal::Print(text)
                    },
                    None => Signal::Continue,
                }
            },
        }
    }

    fn op_jump(&mut self, offset: u16) -> (signal: Signal)
        requires
            old(self).wf(),
            old(self).result is None,
            !old(self).awaiting,
        ensures
            final(self).wf(),
            (final(self)@, signal@) == old(self)@.op_jump(offset),
    {
        let ip = self.frames[self.frames.len() - 1].ip;
        let len = self.current_chunk().code.len();
        if ip <= len && (offset as usize) <= len - ip {
            self.set_ip(ip + offset as usize);
            Signal::Continue
        } else {
            self.malformed()
        }
    }

    fn op_jump_if_false(&mut self, offset: u16) -> (signal: Signal)
        requires
            old(self).wf(),
            old(self).result is None,
            !old(self).awaiting,
        ensures
            final(self).wf(),
            (final(self)@, signal@) == old(self)@.op_jump_if_false(offset),
    {
        if self.stack.len() < 1 {
            return self.malformed();
        }
        if self.peek(0).is_falsey() {
            self.op_jump(offset)
        } else {
            Signal::Continue
        }
    }

    fn op_loop(&mut self, offset: u16) -> (signal: Signal)
        requires
            old(self).wf(),
            old(self).result is None,
            !old(self).awaiting,
        ensures
            final(self).wf(),
            (final(self)@, signal@) == old(self)@.op_loop(offset),
    {
        let ip = self.frames[self.frames.len() - 1].ip;
        if (offset as usize) <= ip {
            self.set_ip(ip - offset as usize);
            Signal::Continue
        } else {
            self.malformed()
        }
    }

    /// Begins a call of the function object `callee`, whose arguments are
    /// the top `arg_count` values of the stack.
    fn call(&mut self, callee: usize, arg_count: u16) -> (signal: Signal)
        requires
            old(self).wf(),
            old(self).result is None,
            !old(self).awaiting,
            old(self).stack@.len() >= arg_count + 1,
            old(self)@.peek(arg_count as int) == Value::Obj(callee),
            callee < old(self)@.heap.len(),
            old(self)@.heap[callee as int] is Function,
        ensures
            final(self).wf(),
            (final(self)@, signal@) == old(self)@.op_call(arg_count),
    {
        let arity = match &self.obj_array.heap[callee] {
            HeapObject::Function(f) => f.arity,
            _ => 0,
        };
        if arity as u16 != arg_count {
            let mut message: Vec<u8> = Vec::new();
            append_bytes(&mut message, "Expected ".as_bytes());
            append_decimal(&mut message, arity as i128);
            append_bytes(&mut message, " arguments but got ".as_bytes());
            append_decimal(&mut message, arg_count as i128);
            append_bytes(&mut message, ".".as_bytes());
            assert(message@ =~= wrong_arity(arity, arg_count));
            return self.runtime_error(message.as_slice());
        }
        if self.frames.len() >= FRAMES_MAX {
            return self.runtime_error("Stack overflow.".as_bytes());
        }
        let slot_base = self.stack.len() - arg_count as usize - 1;
        self.frames.push(CallFrame { function: callee, ip: 0, slot_base });
        proof {
            assert(self@ =~= old(self)@.op_call(arg_count).0);
            assert forall|k: int| 0 <= k < self@.frames.len() implies self@.frame_ok(
                #[trigger] self@.frames[k],
            ) by {
                if k < old(self)@.frames.len() {
                    assert(old(self)@.frame_ok(old(self)@.frames[k]));
                }
            }
        }
        Signal::Continue
    }

    /// Calls whatever stands below the top `arg_count` values of the stack.
    fn call_value(&mut self, arg_count: u16) -> (signal: Signal)
        requires
            old(self).wf(),
            old(self).result is None,
            !old(self).awaiting,
        ensures
            final(self).wf(),
            (final(self)@, signal@) == old(self)@.op_call(arg_count),
    {
        let len = self.stack.len();
        if len < arg_count as usize + 1 {
            return self.malformed();
        }
        match self.peek(arg_count as usize) {
            Value::Obj(callee) => {
                if callee >= self.obj_array.len() {
                    return self.malformed();
                }
                let native = match &self.obj_array.heap[callee] {
                    HeapObject::Function(_) => None,
                    HeapObject::Native(n) => Some(Some(n.function)),
                    HeapObject::String(_) => Some(None),
                };
                match native {
                    None => self.call(callee, arg_count),
                    Some(Some(function)) => {
                        let args = self.stack.split_off(len - arg_count as usize);
                        assert(self.stack@ =~= old(self)@.stack.subrange(0, len - arg_count));
                        self.drop_values(1);
                        assert(self.stack@ =~= old(self)@.dropped(arg_count + 1));
                        self.awaiting = true;
                        assert(self@ =~= old(self)@.op_call(arg_count).0);
                        assert(args@ =~= old(self)@.stack.subrange(
                            old(self)@.stack.len() - arg_count,
                            old(self)@.stack.len() as int,
                        ));
                        Signal::Native { function, args }
                    },
                    Some(None) => self.runtime_error("Can only call functions.".as_bytes()),
                }
            },
            _ => self.runtime_error("Can only call functions.".as_bytes()),
        }
    }

    fn op_return(&mut self) -> (signal: Signal)
        requires
            old(self).wf(),
            old(self).result is None,
            !old(self).awaiting,
        ensures
            final(self).wf(),
            (final(self)@, signal@) == old(self)@.op_return(),
    {
        if self.stack.len() < 1 {
            return self.malformed();
        }
        if self.frames.len() == 1 {
            return self.halt(InterpretResult::Success);
        }
        let value = self.peek(0);
        let base = self.frames[self.frames.len() - 1].slot_base;
        self.frames.pop();
        self.drop_values(1);
        self.stack.truncate(base);
        let ghost kept = self.stack@;
        self.stack.push(value);
        proof {
            assert(self@.frames =~= old(self)@.frames.drop_last());
            if base < old(self)@.stack.len() {
                assert(kept =~= old(self)@.stack.subrange(0, base as int));
            } else {
                assert(kept =~= old(self)@.dropped(1));
            }
            assert(self@ =~= old(self)@.op_return().0);
            assert forall|k: int| 0 <= k < self@.frames.len() implies self@.frame_ok(
                #[trigger] self@.frames[k],
            ) by {
                assert(old(self)@.frame_ok(old(self)@.frames[k]));
            }
        }
        Signal::Continue
    }

    /// Runs one instruction, the frame's `ip` standing behind it.
    fn execute(&mut self, op: OpCode, operand: u16) -> (signal: Signal)
        requires
            old(self).wf(),
            old(self).result is None,
            !old(self).awaiting,
        ensures
            final(self).wf(),
            (final(self)@, signal@) == old(self)@.execute(op, operand),
    {
        match op {
            OpCode::Constant => self.op_constant(operand),
            OpCode::Nil => self.push(Value::Nil),
            OpCode::True => self.push(Value::Bool(true)),
            OpCode::False => self.push(Value::Bool(false)),
            OpCode::Pop => self.op_pop(),
            OpCode::GetLocal => self.op_get_local(operand),
            OpCode::SetLocal => self.op_set_local(operand),
            OpCode::GetGlobal => self.op_get_global(operand),
            OpCode::DefineGlobal => self.op_define_global(operand),
            OpCode::SetGlobal => self.op_set_global(operand),
            OpCode::Equal => self.op_equal(),
            OpCode::Greater => self.op_compare(op),
            OpCode::Less => self.op_compare(op),
            OpCode::Add => self.op_arithmetic(op),
            OpCode::Subtract => self.op_arithmetic(op),
            OpCode::Multiply => self.op_arithmetic(op),
            OpCode::Divide => self.op_arithmetic(op),
            OpCode::Not => self.op_not(),
            OpCode::Negate => self.op_negate(),
            OpCode::Print => self.op_print(),
            OpCode::Jump => self.op_jump(operand),
            OpCode::JumpIfFalse => self.op_jump_if_false(operand),
            OpCode::Loop => self.op_loop(operand),
            OpCode::Call => self.call_value(operand),
            OpCode::Return => self.op_return(),
        }
    }

    /// Runs the next instruction and says what the embedding program is to
    /// do before the one after it.
    pub fn step(&mut self) -> (signal: Signal)
        requires
            old(self).wf(),
        ensures
            final(self).wf(),
            (final(self)@, signal@) == old(self)@.step(),
    {
        if let Some(result) = self.result {
            return Signal::Halt(result);
        }
        if self.awaiting {
            return Signal::Awaiting;
        }
        let ip = self.frames[self.frames.len() - 1].ip;
        let fetched = fetch(&self.current_chunk().code, ip);
        match fetched {
            Fetch::End => self.malformed(),
            Fetch::Unknown(byte) => {
                let mut message: Vec<u8> = Vec::new();
                append_bytes(&mut message, "Unknown opcode ".as_bytes());
                append_decimal(&mut message, byte as i128);
                append_bytes(&mut message, ".".as_bytes());
                assert(message@ =~= unknown_opcode(byte));
                self.runtime_error(message.as_slice())
            },
            Fetch::Instruction { op, operand, next } => {
                self.set_ip(next);
                self.execute(op, operand)
            },
        }
    }

    /// Answers an outstanding request: the value goes on the stack. Without
    /// such a request nothing changes.
    pub fn resume(&mut self, value: Value)
        requires
            old(self).wf(),
        ensures
            final(self).wf(),
            final(self)@ == old(self)@.resume(value),
    {
        if self.awaiting {
            self.stack.push(value);
            self.awaiting = false;
        }
    }

    /// Steps until the machine asks for something or has taken `budget`
    /// steps; in the latter case the signal is `Continue`.
    pub fn run(&mut self, budget: usize) -> (signal: Signal)
        requires
            old(self).wf(),
        ensures
            final(self).wf(),
            (final(self)@, signal@) == old(self)@.run(budget as nat),
    {
        let mut left: usize = budget;
        while left > 0
            invariant
                self.wf(),
                self@.run(left as nat) == old(self)@.run(budget as nat),
            decreases left,
        {
            let signal = self.step();
            match signal {
                Signal::Continue => {},
                _ => {
                    return signal;
                },
            }
            left -= 1;
        }
        Signal::Continue
    }

}

/// By how much an instruction changes the depth of the stack when it does
/// not fail. `Call` and `Return` move it by what the call decides.
pub open spec fn stack_effect(op: OpCode) -> int {
    match op {
        OpCode::Constant | OpCode::Nil | OpCode::True | OpCode::False | OpCode::GetLocal
        | OpCode::GetGlobal => 1,
        OpCode::Pop | OpCode::DefineGlobal | OpCode::Equal | OpCode::Greater | OpCode::Less
        | OpCode::Add | OpCode::Subtract | OpCode::Multiply | OpCode::Divide | OpCode::Print => -1,
        _ => 0,
    }
}

/// An instruction other than `Call` and `Return` that does not stop the
/// machine moves the depth of the stack by its `stack_effect`; where the
/// embedding program computes the result, once that result has come.
pub proof fn lemma_stack_effect(vm: VmView, reply: Value)
    requires
        vm.result is None,
        !vm.awaiting,
        fetch_spec(vm.chunk().code, vm.frame().ip) is Instruction,
        !(vm.step().1 is Halt),
    ensures
        ({
            let op = fetch_spec(vm.chunk().code, vm.frame().ip)->op;
            let (next, signal) = vm.step();
            op != OpCode::Call && op != OpCode::Return ==> (if signal is Arithmetic {
                next.resume(reply).stack.len() == vm.stack.len() + stack_effect(op)
            } else {
                next.stack.len() == vm.stack.len() + stack_effect(op)
            })
        }),
{
}

/// The value stack is empty and no frame is left once the machine has
/// stopped.
pub open spec fn clean_when_stopped(vm: VmView) -> bool {
    vm.result is Some ==> vm.stack.len() == 0 && vm.frames.len() == 0
}

/// A step that stops the machine leaves the stack and the frames empty, and
/// any other step leaves it running.
pub proof fn lemma_step_halts_clean(vm: VmView)
    requires
        clean_when_stopped(vm),
    ensures
        ({
            let (next, signal) = vm.step();
            &&& signal is Halt ==> next.result == Some(signal->Halt_0)
            &&& !(signal is Halt) ==> next.result is None
            &&& clean_when_stopped(next)
        }),
{
}

/// When a run ends, with `Success` or otherwise, the value stack is empty
/// and no frame is left.
pub proof fn lemma_run_halts_clean(vm: VmView, budget: nat)
    requires
        vm.wf(),
    ensures
        ({
            let (last, signal) = vm.run(budget);
            signal is Halt ==> last.result == Some(signal->Halt_0) && last.stack.len() == 0
                && last.frames.len() == 0
        }),
{
    lemma_run_stays_clean(vm, budget);
}

proof fn lemma_run_stays_clean(vm: VmView, budget: nat)
    requires
        clean_when_stopped(vm),
    ensures
        ({
            let (last, signal) = vm.run(budget);
            &&& signal is Halt ==> last.result == Some(signal->Halt_0)
            &&& clean_when_stopped(last)
        }),
    decreases budget,
{
    if budget > 0 {
        lemma_step_halts_clean(vm);
        let (next, signal) = vm.step();
        if signal is Continue {
            lemma_run_stays_clean(next, (budget - 1) as nat);
        }
    }
}

/// What interpreting `source` begins with: after a compile error a machine
/// that has stopped with the compiler's report, otherwise a machine about
/// to run the script.
pub open spec fn interpreted(source: Seq<u8>, literals: Seq<u64>) -> VmView {
    let end = ParserView::start(
        source,
        literals,
        ChunkView::empty(),
        Seq::<ObjView>::empty(),
        Seq::<u8>::empty(),
    ).compile();
    if end.had_error {
        (VmView {
            stack: Seq::<Value>::empty(),
            frames: Seq::<CallFrame>::empty(),
            globals: Map::<usize, Value>::empty(),
            heap: Seq::<ObjView>::empty(),
            awaiting: false,
            result: Some(InterpretResult::CompileError),
            diagnostics: end.diagnostics,
        })
    } else {
        VmView {
            diagnostics: end.diagnostics,
            ..VmView::start(
                end.heap.push(
                    ObjView::Function(FunctionView { arity: 0, chunk: end.chunk, name: None }),
                ),
                end.heap.len() as usize,
            )
        }
    }
}

/// Compiles `source` and hands back the machine that runs it: call `run`
/// on it, and do what its signals ask, until it halts. `literals` holds the
/// doubles of the source's number tokens, in order.
pub fn interpret(source: String, literals: Vec<u64>) -> (vm: VM)
    requires
        encode_utf8(source@).len() <= SOURCE_MAX,
        literals@.len() == number_tokens(encode_utf8(source@), 0).len(),
    ensures
        vm.wf(),
        vm@ == interpreted(encode_utf8(source@), literals@),
{
    let mut obj_array = ObjArray::default();
    let mut chunk = Chunk::default();
    let mut diagnostics: Vec<u8> = Vec::new();
    let compiled = compile(source, literals, &mut chunk, &mut obj_array, &mut diagnostics);
    if !compiled {
        obj_array.free_objects();
        let vm = VM {
            stack: Vec::new(),
            frames: Vec::new(),
            globals: HashMap::new(),
            obj_array,
            awaiting: false,
            result: Some(InterpretResult::CompileError),
            diagnostics,
        };
        assert(vm@ =~= interpreted(encode_utf8(source@), literals@));
        return vm;
    }
    let script = obj_array.new_function(chunk);
    let mut vm = VM::new(obj_array, script);
    vm.diagnostics = diagnostics;
    vm
}

} // verus!
