//! The state of the compiler's pass, and what each production does to it.
//!
//! Every production is a function from the state before it to the state
//! behind it. The productions call each other as the grammar does; each
//! goes on only from a state that is no further from the end of the source
//! than the one it began with, which is what makes them total.

use vstd::prelude::*;
use vstd::string::*;
use crate::chunk::ChunkView;
use crate::chunk::OpCode;
use crate::chunk::opcode_byte;
use crate::compiler::Local;
use crate::compiler::LOCALS_MAX;
use crate::compiler::ParseFn;
use crate::compiler::Precedence;
use crate::compiler::level;
use crate::compiler::rule_of;
use crate::compiler::tighter;
use crate::object::ObjView;
use crate::object::interned;
use crate::object::string_index;
use crate::scanner::Token;
use crate::scanner::TokenType;
use crate::scanner::scan;
use crate::scanner::token_text;
use crate::text::decimal_text;
use crate::value::Value;

verus! {

/// The bytes of the source that a token spans.
pub open spec fn lexeme(src: Seq<u8>, token: Token) -> Seq<u8> {
    src.subrange(token.start as int, token.start + token.length)
}

/// One line of compile diagnostics:
/// `[line N] Error at 'TEXT': MESSAGE`, with `at end` at the end of the
/// source, and without the colon where there is no message.
#[verifier::opaque]
pub open spec fn error_line(src: Seq<u8>, token: Token, message: Seq<u8>) -> Seq<u8> {
    "[line ".spec_bytes() + decimal_text(token.line as int) + "] Error".spec_bytes() + (
    if token.token_type == TokenType::EOF {
        " at end".spec_bytes()
    } else {
        " at '".spec_bytes() + token_text(src, token) + "'".spec_bytes()
    }) + (if message.len() > 0 {
        ": ".spec_bytes() + message
    } else {
        Seq::<u8>::empty()
    }) + "\n".spec_bytes()
}

/// The high byte of a 16-bit operand.
pub open spec fn high_byte(n: int) -> u8 {
    ((n / 256) % 256) as u8
}

/// The low byte of a 16-bit operand.
pub open spec fn low_byte(n: int) -> u8 {
    (n % 256) as u8
}

/// The state of the pass.
pub struct ParserView {
    pub source: Seq<u8>,
    /// The doubles of the source's number tokens, in order.
    pub literals: Seq<u64>,
    /// How many of them have been handed out.
    pub cursor: int,
    /// Where the scanner stands.
    pub position: int,
    pub current: Token,
    pub current_number: u64,
    pub previous: Token,
    pub previous_number: u64,
    pub had_error: bool,
    pub panic_mode: bool,
    pub diagnostics: Seq<u8>,
    pub chunk: ChunkView,
    pub heap: Seq<ObjView>,
    pub locals: Seq<Local>,
    pub scope_depth: int,
}

impl ParserView {
    /// How much of the source lies behind the start of the current token.
    pub open spec fn remaining(self) -> nat {
        if self.current.start <= self.source.len() {
            (self.source.len() - self.current.start) as nat
        } else {
            0
        }
    }

    /// Whether `next` continues this pass: the same source, no further from
    /// its end, with no less code, in the same scope.
    pub open spec fn leads_to(self, next: ParserView) -> bool {
        &&& next.source == self.source
        &&& next.literals == self.literals
        &&& next.remaining() <= self.remaining()
        &&& next.chunk.code.len() >= self.chunk.code.len()
        &&& next.scope_depth == self.scope_depth
        &&& next.locals.len() >= 1
        &&& self.had_error ==> next.had_error
    }

    /// Reports an error at `token`, unless the pass is panicking already.
    pub open spec fn error_at(self, token: Token, message: Seq<u8>) -> ParserView {
        if self.panic_mode {
            self
        } else {
            ParserView {
                panic_mode: true,
                had_error: true,
                diagnostics: self.diagnostics + error_line(self.source, token, message),
                ..self
            }
        }
    }

    /// Reports an error at the token just read.
    pub open spec fn error(self, message: Seq<u8>) -> ParserView {
        self.error_at(self.previous, message)
    }

    /// Reports an error at the token that comes next.
    pub open spec fn error_at_current(self, message: Seq<u8>) -> ParserView {
        self.error_at(self.current, message)
    }

    /// Takes the next token from the scanner. A number token takes the next
    /// double of the table with it.
    pub open spec fn scanned(self) -> ParserView {
        let (token, next) = scan(self.source, self.position);
        if token.token_type == TokenType::Number {
            ParserView {
                position: next,
                current: token,
                current_number: if 0 <= self.cursor < self.literals.len() {
                    self.literals[self.cursor]
                } else {
                    0
                },
                cursor: self.cursor + 1,
                ..self
            }
        } else {
            ParserView { position: next, current: token, ..self }
        }
    }

    /// Scans until a token comes that is no error, reporting each error.
    #[verifier::opaque]
    pub open spec fn skip_errors(self) -> ParserView
        decreases self.source.len() - self.position,
    {
        let next = self.scanned();
        if next.current.token_type == TokenType::Error && self.position < next.position
            <= self.source.len() {
            next.error_at_current(Seq::<u8>::empty()).skip_errors()
        } else {
            next
        }
    }

    /// Moves to the next token.
    #[verifier::opaque]
    pub open spec fn advance(self) -> ParserView {
        (ParserView {
            previous: self.current,
            previous_number: self.current_number,
            ..self
        }).skip_errors()
    }

    /// Whether the next token is of the given kind.
    pub open spec fn check(self, token_type: TokenType) -> bool {
        self.current.token_type == token_type
    }

    /// Moves past a token of the given kind, or reports that it is missing.
    #[verifier::opaque]
    pub open spec fn consume(self, token_type: TokenType, message: Seq<u8>) -> ParserView {
        if self.check(token_type) {
            self.advance()
        } else {
            self.error_at_current(message)
        }
    }

    /// Moves past the current token if it is of the given kind.
    #[verifier::opaque]
    pub open spec fn match_token(self, token_type: TokenType) -> ParserView {
        if self.check(token_type) {
            self.advance()
        } else {
            self
        }
    }

    /// Appends a byte of code, on the line of the token just read.
    pub open spec fn emit_byte(self, byte: u8) -> ParserView {
        ParserView { chunk: self.chunk.write(byte, self.previous.line), ..self }
    }

    /// Appends an instruction.
    pub open spec fn emit_op(self, op: OpCode) -> ParserView {
        self.emit_byte(opcode_byte(op))
    }

    /// Appends two bytes of code.
    pub open spec fn emit_bytes(self, first: u8, second: u8) -> ParserView {
        self.emit_byte(first).emit_byte(second)
    }

    /// The end of the script returns `nil`.
    pub open spec fn emit_return(self) -> ParserView {
        self.emit_op(OpCode::Nil).emit_op(OpCode::Return)
    }

    /// The index that `make_constant` gives the next constant: its place in
    /// the pool, or 0 where that is over 255.
    pub open spec fn constant_index(self) -> u8 {
        if self.chunk.constants.len() > 255 {
            0
        } else {
            self.chunk.constants.len() as u8
        }
    }

    /// Adds a constant to the pool; one at an index over 255 is an error.
    #[verifier::opaque]
    pub open spec fn make_constant(self, value: Value) -> ParserView {
        let added = ParserView { chunk: self.chunk.add_constant(value), ..self };
        if self.chunk.constants.len() > 255 {
            added.error("Too many constants in one chunk.".spec_bytes())
        } else {
            added
        }
    }

    /// Adds a constant to the pool and emits the instruction that loads it.
    #[verifier::opaque]
    pub open spec fn emit_constant(self, value: Value) -> ParserView {
        self.make_constant(value).emit_bytes(opcode_byte(OpCode::Constant), self.constant_index())
    }

    /// Interns `text` and adds the string to the constant pool.
    #[verifier::opaque]
    pub open spec fn string_constant(self, text: Seq<u8>) -> ParserView {
        let heap = interned(self.heap, text);
        (ParserView { heap, ..self }).make_constant(
            Value::Obj(string_index(heap, text) as usize),
        )
    }

    /// Adds the name of a variable to the constant pool.
    pub open spec fn identifier_constant(self, name: Token) -> ParserView {
        self.string_constant(lexeme(self.source, name))
    }

    /// Emits a jump with a placeholder for its distance. The placeholder
    /// stands at `jump_operand` of the state before.
    pub open spec fn emit_jump(self, op: OpCode) -> ParserView {
        self.emit_op(op).emit_byte(0xff).emit_byte(0xff)
    }

    /// Where the operand of the jump that is emitted next will stand.
    pub open spec fn jump_operand(self) -> int {
        (self.chunk.code.len() + 1) as int
    }

    /// Makes the jump whose operand stands at `offset` land behind the code
    /// emitted so far. A distance over 65535 is an error.
    #[verifier::opaque]
    pub open spec fn patch_jump(self, offset: int) -> ParserView {
        let jump = self.chunk.code.len() - offset - 2;
        let checked = if jump > 65535 {
            self.error("Too much code to jump over.".spec_bytes())
        } else {
            self
        };
        if 0 <= offset && jump >= 0 {
            ParserView {
                chunk: ChunkView {
                    code: self.chunk.code.update(offset, high_byte(jump)).update(
                        offset + 1,
                        low_byte(jump),
                    ),
                    ..self.chunk
                },
                ..checked
            }
        } else {
            checked
        }
    }

    /// Emits a jump back to `loop_start`. A distance over 65535 is an error.
    #[verifier::opaque]
    pub open spec fn emit_loop(self, loop_start: int) -> ParserView {
        let emitted = self.emit_op(OpCode::Loop);
        let offset = emitted.chunk.code.len() - loop_start + 2;
        let checked = if offset > 65535 {
            emitted.error("Loop body too large.".spec_bytes())
        } else {
            emitted
        };
        checked.emit_byte(high_byte(offset)).emit_byte(low_byte(offset))
    }

    /// Opens a scope.
    pub open spec fn begin_scope(self) -> ParserView {
        ParserView { scope_depth: self.scope_depth + 1, ..self }
    }

    /// Pops the locals that are deeper than the current scope.
    #[verifier::opaque]
    pub open spec fn pop_locals(self) -> ParserView
        decreases self.locals.len(),
    {
        if self.locals.len() > 0 && self.locals.last().depth > self.scope_depth {
            (ParserView { locals: self.locals.drop_last(), ..self.emit_op(OpCode::Pop) }).pop_locals()
        } else {
            self
        }
    }

    /// Closes a scope and pops the locals that it declared.
    #[verifier::opaque]
    pub open spec fn end_scope(self) -> ParserView {
        (ParserView { scope_depth: self.scope_depth - 1, ..self }).pop_locals()
    }

    /// Whether one of the first `count` locals has the name `name` and
    /// belongs to the current scope.
    pub open spec fn declared_in_scope(self, name: Token, count: int) -> bool
        decreases count,
    {
        if count <= 0 || count > self.locals.len() {
            false
        } else {
            let local = self.locals[count - 1];
            if local.depth != -1 && local.depth < self.scope_depth {
                false
            } else {
                lexeme(self.source, name) == lexeme(self.source, local.name)
                    || self.declared_in_scope(name, count - 1)
            }
        }
    }

    /// Adds a local that is not initialized yet; one too many is an error.
    #[verifier::opaque]
    pub open spec fn add_local(self, name: Token) -> ParserView {
        if self.locals.len() >= LOCALS_MAX {
            self.error_at(name, "Too many local variables in function.".spec_bytes())
        } else {
            ParserView { locals: self.locals.push(Local { name, depth: -1i32 }), ..self }
        }
    }

    /// Declares the variable that the previous token names, if the scope is
    /// local. Its name may not be taken in that scope already.
    #[verifier::opaque]
    pub open spec fn declare_variable(self) -> ParserView {
        if self.scope_depth == 0 {
            self
        } else if self.declared_in_scope(self.previous, self.locals.len() as int) {
            self.error("Already a variable with this name in this scope.".spec_bytes()).add_local(
                self.previous,
            )
        } else {
            self.add_local(self.previous)
        }
    }

    /// The newest local becomes usable. Slot 0 is the function's own.
    #[verifier::opaque]
    pub open spec fn mark_initialized(self) -> ParserView {
        if self.locals.len() > 1 {
            ParserView {
                locals: self.locals.update(
                    self.locals.len() - 1,
                    Local { depth: self.scope_depth as i32, ..self.locals.last() },
                ),
                ..self
            }
        } else {
            self
        }
    }

    /// A local is defined by what its initializer left on the stack; a
    /// global by an instruction that names it.
    #[verifier::opaque]
    pub open spec fn define_variable(self, global: u8) -> ParserView {
        if self.scope_depth > 0 {
            self.mark_initialized()
        } else {
            self.emit_bytes(opcode_byte(OpCode::DefineGlobal), global)
        }
    }

    /// The slot of the newest of the first `count` locals that has the name
    /// `name`, or -1 if none has.
    pub open spec fn local_slot(self, name: Token, count: int) -> int
        decreases count,
    {
        if count <= 0 || count > self.locals.len() {
            -1
        } else if lexeme(self.source, name) == lexeme(self.source, self.locals[count - 1].name) {
            count - 1
        } else {
            self.local_slot(name, count - 1)
        }
    }

    /// Looks `name` up among the locals. A local may not be read in its own
    /// initializer.
    #[verifier::opaque]
    pub open spec fn resolve_local(self, name: Token) -> ParserView {
        let slot = self.local_slot(name, self.locals.len() as int);
        if slot >= 0 && self.locals[slot].depth == -1 {
            self.error("Can't read local variable in its own initializer.".spec_bytes())
        } else {
            self
        }
    }

    /// Whether panic mode ends here: behind a `;`, or before a token that
    /// begins a statement.
    pub open spec fn at_boundary(self) -> bool {
        self.previous.token_type == TokenType::Semicolon || self.current.token_type
            == TokenType::Class || self.current.token_type == TokenType::Fun
            || self.current.token_type == TokenType::Var || self.current.token_type
            == TokenType::For || self.current.token_type == TokenType::If
            || self.current.token_type == TokenType::While || self.current.token_type
            == TokenType::Print || self.current.token_type == TokenType::Return
    }

    /// Skips tokens up to the next statement boundary.
    #[verifier::opaque]
    pub open spec fn skip_to_boundary(self) -> ParserView
        decreases self.remaining(),
    {
        if self.current.token_type == TokenType::EOF || self.at_boundary() {
            self
        } else {
            let next = self.advance();
            if next.remaining() < self.remaining() {
                next.skip_to_boundary()
            } else {
                next
            }
        }
    }

    /// Leaves panic mode and skips to the next statement boundary.
    #[verifier::opaque]
    pub open spec fn synchronize(self) -> ParserView {
        (ParserView { panic_mode: false, ..self }).skip_to_boundary()
    }
}

impl ParserView {
    /// Whether this state is no further from the end of the source than
    /// `origin`. Each production goes on only from such a state.
    pub open spec fn within(self, origin: ParserView) -> bool {
        self.remaining() <= origin.remaining()
    }

    /// Whether this state is nearer to the end of the source than `origin`.
    pub open spec fn below(self, origin: ParserView) -> bool {
        self.remaining() < origin.remaining()
    }

    /// The bytes between the quotes of the string literal that the previous
    /// token is.
    pub open spec fn string_body(self) -> Seq<u8> {
        if self.previous.length >= 2 {
            self.source.subrange(
                self.previous.start + 1,
                self.previous.start + self.previous.length - 1,
            )
        } else {
            Seq::<u8>::empty()
        }
    }

    /// A number literal loads its double, which the table holds.
    #[verifier::opaque]
    pub open spec fn number(self) -> ParserView {
        self.emit_constant(Value::Number(self.previous_number))
    }

    /// A string literal loads the interned string of its body.
    #[verifier::opaque]
    pub open spec fn string(self) -> ParserView {
        self.string_constant(self.string_body()).emit_bytes(
            opcode_byte(OpCode::Constant),
            self.constant_index(),
        )
    }

    /// `false`, `nil` and `true` each have an instruction of their own.
    #[verifier::opaque]
    pub open spec fn literal(self) -> ParserView {
        match self.previous.token_type {
            TokenType::False => self.emit_op(OpCode::False),
            TokenType::Nil => self.emit_op(OpCode::Nil),
            TokenType::True => self.emit_op(OpCode::True),
            _ => self,
        }
    }

    /// The instructions of a binary operator, its operands being compiled.
    #[verifier::opaque]
    pub open spec fn emit_operator(self, operator: TokenType) -> ParserView {
        match operator {
            TokenType::Plus => self.emit_op(OpCode::Add),
            TokenType::Minus => self.emit_op(OpCode::Subtract),
            TokenType::Star => self.emit_op(OpCode::Multiply),
            TokenType::Slash => self.emit_op(OpCode::Divide),
            TokenType::BangEqual => self.emit_op(OpCode::Equal).emit_op(OpCode::Not),
            TokenType::EqualEqual => self.emit_op(OpCode::Equal),
            TokenType::Greater => self.emit_op(OpCode::Greater),
            TokenType::GreaterEqual => self.emit_op(OpCode::Less).emit_op(OpCode::Not),
            TokenType::Less => self.emit_op(OpCode::Less),
            TokenType::LessEqual => self.emit_op(OpCode::Greater).emit_op(OpCode::Not),
            _ => self,
        }
    }

    /// The index that `parse_variable` returns: 0 for a local, the constant
    /// that holds its name for a global.
    #[verifier::opaque]
    pub open spec fn parse_variable_index(self, message: Seq<u8>) -> u8 {
        let declared = self.consume(TokenType::Identifier, message).declare_variable();
        if declared.scope_depth > 0 {
            0
        } else {
            declared.constant_index()
        }
    }

    /// Reads the name of a variable and declares it.
    #[verifier::opaque]
    pub open spec fn parse_variable(self, message: Seq<u8>) -> ParserView {
        let declared = self.consume(TokenType::Identifier, message).declare_variable();
        if declared.scope_depth > 0 {
            declared
        } else {
            declared.identifier_constant(declared.previous)
        }
    }

    /// An expression: everything that binds at least as tightly as
    /// `precedence`.
    pub open spec fn parse_precedence(self, precedence: Precedence) -> ParserView
        decreases self.remaining(), 40nat,
    {
        let read = self.advance();
        match rule_of(read.previous.token_type).prefix {
            None => read.error("Expect expression.".spec_bytes()),
            Some(rule) => {
                let can_assign = level(precedence) <= level(Precedence::Assignment);
                let left = if read.below(self) {
                    read.prefix_rule(rule, can_assign)
                } else {
                    read
                };
                let whole = if left.within(self) {
                    left.infix_loop(precedence, can_assign)
                } else {
                    left
                };
                if can_assign && whole.check(TokenType::Equal) {
                    whole.advance().error("Invalid assignment target.".spec_bytes())
                } else {
                    whole
                }
            },
        }
    }

    /// The operators that follow a left operand, as long as they bind at
    /// least as tightly as `precedence`.
    pub open spec fn infix_loop(self, precedence: Precedence, can_assign: bool) -> ParserView
        decreases self.remaining(), 30nat,
    {
        if level(precedence) <= level(rule_of(self.current.token_type).precedence) {
            let read = self.advance();
            match rule_of(read.previous.token_type).infix {
                None => read,
                Some(rule) => {
                    let applied = if read.below(self) {
                        read.infix_rule(rule)
                    } else {
                        read
                    };
                    if applied.below(self) {
                        applied.infix_loop(precedence, can_assign)
                    } else {
                        applied
                    }
                },
            }
        } else {
            self
        }
    }

    /// The production that the previous token begins.
    pub open spec fn prefix_rule(self, rule: ParseFn, can_assign: bool) -> ParserView
        decreases self.remaining(), 130nat,
    {
        match rule {
            ParseFn::Grouping => self.grouping(),
            ParseFn::Unary => self.unary(),
            ParseFn::Variable => self.variable(can_assign),
            ParseFn::String => self.string(),
            ParseFn::Number => self.number(),
            ParseFn::Literal => self.literal(),
            _ => self,
        }
    }

    /// The production that the previous token continues.
    pub open spec fn infix_rule(self, rule: ParseFn) -> ParserView
        decreases self.remaining(), 130nat,
    {
        match rule {
            ParseFn::Binary => self.binary(),
            ParseFn::And => self.and_(),
            ParseFn::Or => self.or_(),
            _ => self,
        }
    }

    /// An expression in parentheses, the `(` being read.
    pub open spec fn grouping(self) -> ParserView
        decreases self.remaining(), 120nat,
    {
        self.expression().consume(
            TokenType::RightParen,
            "Expect ')' after expression.".spec_bytes(),
        )
    }

    /// `-` or `!` before an operand, the operator being read.
    pub open spec fn unary(self) -> ParserView
        decreases self.remaining(), 120nat,
    {
        let operand = self.parse_precedence(Precedence::Unary);
        match self.previous.token_type {
            TokenType::Minus => operand.emit_op(OpCode::Negate),
            TokenType::Bang => operand.emit_op(OpCode::Not),
            _ => operand,
        }
    }

    /// The right operand binds one step tighter than the operator, so that
    /// operators of one precedence group to the left.
    pub open spec fn binary(self) -> ParserView
        decreases self.remaining(), 120nat,
    {
        let operator = self.previous.token_type;
        self.parse_precedence(tighter(rule_of(operator).precedence)).emit_operator(operator)
    }

    /// `and` skips its right operand when the left one is falsey.
    pub open spec fn and_(self) -> ParserView
        decreases self.remaining(), 120nat,
    {
        let end_jump = self.jump_operand();
        let left = self.emit_jump(OpCode::JumpIfFalse).emit_op(OpCode::Pop);
        let right = if left.within(self) {
            left.parse_precedence(Precedence::And)
        } else {
            left
        };
        right.patch_jump(end_jump)
    }

    /// `or` skips its right operand when the left one is truthy.
    pub open spec fn or_(self) -> ParserView
        decreases self.remaining(), 120nat,
    {
        let else_jump = self.jump_operand();
        let tested = self.emit_jump(OpCode::JumpIfFalse);
        let end_jump = tested.jump_operand();
        let left = tested.emit_jump(OpCode::Jump).patch_jump(else_jump).emit_op(OpCode::Pop);
        let right = if left.within(self) {
            left.parse_precedence(Precedence::Or)
        } else {
            left
        };
        right.patch_jump(end_jump)
    }

    /// A variable, its name being read.
    pub open spec fn variable(self, can_assign: bool) -> ParserView
        decreases self.remaining(), 120nat,
    {
        self.named_variable(self.previous, can_assign)
    }

    /// Reads or assigns the variable `name`: a local if one has that name,
    /// otherwise the global of that name.
    pub open spec fn named_variable(self, name: Token, can_assign: bool) -> ParserView
        decreases self.remaining(), 60nat,
    {
        let slot = self.local_slot(name, self.locals.len() as int);
        let resolved = if slot >= 0 {
            self.resolve_local(name)
        } else {
            self.identifier_constant(name)
        };
        let arg = if slot >= 0 {
            slot as u8
        } else {
            self.constant_index()
        };
        if can_assign && resolved.check(TokenType::Equal) {
            let read = resolved.advance();
            let value = if read.within(self) {
                read.expression()
            } else {
                read
            };
            value.emit_bytes(
                opcode_byte(
                    if slot >= 0 {
                        OpCode::SetLocal
                    } else {
                        OpCode::SetGlobal
                    },
                ),
                arg,
            )
        } else {
            resolved.emit_bytes(
                opcode_byte(
                    if slot >= 0 {
                        OpCode::GetLocal
                    } else {
                        OpCode::GetGlobal
                    },
                ),
                arg,
            )
        }
    }

    /// An expression of any precedence.
    pub open spec fn expression(self) -> ParserView
        decreases self.remaining(), 50nat,
    {
        self.parse_precedence(Precedence::Assignment)
    }

    /// `print EXPRESSION;`, the `print` being read.
    pub open spec fn print_statement(self) -> ParserView
        decreases self.remaining(), 60nat,
    {
        self.expression().consume(
            TokenType::Semicolon,
            "Expect ';' after value.".spec_bytes(),
        ).emit_op(OpCode::Print)
    }

    /// `EXPRESSION;`: the value is computed and dropped.
    pub open spec fn expression_statement(self) -> ParserView
        decreases self.remaining(), 60nat,
    {
        self.expression().consume(
            TokenType::Semicolon,
            "Expect ';' after value.".spec_bytes(),
        ).emit_op(OpCode::Pop)
    }

    /// `var NAME;` or `var NAME = EXPRESSION;`, the `var` being read.
    pub open spec fn var_declaration(self) -> ParserView
        decreases self.remaining(), 70nat,
    {
        let message = "Expect variable name.".spec_bytes();
        let named = self.parse_variable(message);
        let valued = if named.check(TokenType::Equal) {
            let read = named.advance();
            if read.within(self) {
                read.expression()
            } else {
                read
            }
        } else {
            named.emit_op(OpCode::Nil)
        };
        valued.consume(
            TokenType::Semicolon,
            "Expect ';' after variable declaration.".spec_bytes(),
        ).define_variable(self.parse_variable_index(message))
    }

    /// The declarations of a block up to its `}`, the `{` being read.
    pub open spec fn block(self) -> ParserView
        decreases self.remaining(), 100nat,
    {
        if self.check(TokenType::RightBrace) || self.check(TokenType::EOF) {
            self.consume(TokenType::RightBrace, "Expect '}' after block.".spec_bytes())
        } else {
            let declared = self.declaration();
            if declared.below(self) {
                declared.block()
            } else {
                declared
            }
        }
    }

    /// `(` EXPRESSION `)`, as it follows `if` and `while`.
    pub open spec fn condition(self, message: Seq<u8>) -> ParserView
        decreases self.remaining(), 90nat,
    {
        let opened = self.consume(TokenType::LeftParen, message);
        if opened.within(self) {
            opened.expression()
        } else {
            opened
        }.consume(TokenType::RightParen, "Expect ')' after condition.".spec_bytes())
    }

    /// `else STATEMENT`, if an `else` follows.
    pub open spec fn else_clause(self) -> ParserView
        decreases self.remaining(), 90nat,
    {
        if self.check(TokenType::Else) {
            let read = self.advance();
            if read.within(self) {
                read.statement()
            } else {
                read
            }
        } else {
            self
        }
    }

    /// `if (CONDITION) STATEMENT` with an optional `else STATEMENT`, the
    /// `if` being read. Each branch pops the condition.
    pub open spec fn if_statement(self) -> ParserView
        decreases self.remaining(), 110nat,
    {
        let condition = self.condition("Expect '(' after 'if'.".spec_bytes());
        let then_jump = condition.jump_operand();
        let tested = condition.emit_jump(OpCode::JumpIfFalse).emit_op(OpCode::Pop);
        let then_branch = if tested.within(self) {
            tested.statement()
        } else {
            tested
        };
        let else_jump = then_branch.jump_operand();
        let joined = then_branch.emit_jump(OpCode::Jump).patch_jump(then_jump).emit_op(OpCode::Pop);
        let else_branch = if joined.within(self) {
            joined.else_clause()
        } else {
            joined
        };
        else_branch.patch_jump(else_jump)
    }

    /// `while (CONDITION) STATEMENT`, the `while` being read.
    pub open spec fn while_statement(self) -> ParserView
        decreases self.remaining(), 110nat,
    {
        let loop_start = self.chunk.code.len() as int;
        let condition = self.condition("Expect '(' after 'while'.".spec_bytes());
        let exit_jump = condition.jump_operand();
        let tested = condition.emit_jump(OpCode::JumpIfFalse).emit_op(OpCode::Pop);
        let body = if tested.within(self) {
            tested.statement()
        } else {
            tested
        };
        body.emit_loop(loop_start).patch_jump(exit_jump).emit_op(OpCode::Pop)
    }

    /// The first clause of a `for`: nothing, a variable declaration or an
    /// expression statement.
    pub open spec fn for_initializer(self) -> ParserView
        decreases self.remaining(), 90nat,
    {
        if self.check(TokenType::Semicolon) {
            self.advance()
        } else if self.check(TokenType::Var) {
            let read = self.advance();
            if read.within(self) {
                read.var_declaration()
            } else {
                read
            }
        } else {
            self.expression_statement()
        }
    }

    /// The second clause of a `for`: the condition, if there is one, with
    /// the jump that leaves the loop.
    pub open spec fn for_condition(self) -> ParserView
        decreases self.remaining(), 90nat,
    {
        if self.check(TokenType::Semicolon) {
            self.advance()
        } else {
            self.expression().consume(
                TokenType::Semicolon,
                "Expect ';' after loop condition.".spec_bytes(),
            ).emit_jump(OpCode::JumpIfFalse).emit_op(OpCode::Pop)
        }
    }

    /// Where the operand of the jump that leaves a `for` stands, or -1
    /// where the loop has no condition.
    pub open spec fn for_exit_jump(self) -> int
        decreases self.remaining(), 90nat,
    {
        if self.check(TokenType::Semicolon) {
            -1
        } else {
            self.expression().consume(
                TokenType::Semicolon,
                "Expect ';' after loop condition.".spec_bytes(),
            ).jump_operand()
        }
    }

    /// The third clause of a `for`: the increment, if there is one. It is
    /// compiled before the body and runs after it: the body jumps back to
    /// it, and it jumps back to `loop_start`.
    pub open spec fn for_increment(self, loop_start: int) -> ParserView
        decreases self.remaining(), 90nat,
    {
        if self.check(TokenType::RightParen) {
            self.advance()
        } else {
            let body_jump = self.jump_operand();
            self.emit_jump(OpCode::Jump).expression().emit_op(OpCode::Pop).consume(
                TokenType::RightParen,
                "Expect ')' after for clauses.".spec_bytes(),
            ).emit_loop(loop_start).patch_jump(body_jump)
        }
    }

    /// Where the body of a `for` jumps back to: the increment, if there is
    /// one, otherwise `loop_start`.
    pub open spec fn for_loop_target(self, loop_start: int) -> int {
        if self.check(TokenType::RightParen) {
            loop_start
        } else {
            (self.chunk.code.len() + 3) as int
        }
    }

    /// The body of a `for`, with the jump back to `target`, and what ends
    /// the loop: the landing of the jump at `exit_jump`, if there is one.
    pub open spec fn for_body(self, target: int, exit_jump: int) -> ParserView
        decreases self.remaining(), 90nat,
    {
        let body = self.statement().emit_loop(target);
        if exit_jump >= 0 {
            body.patch_jump(exit_jump).emit_op(OpCode::Pop)
        } else {
            body
        }
    }

    /// What follows the condition of a `for`: the increment and the body.
    pub open spec fn for_tail(self, loop_start: int, exit_jump: int) -> ParserView
        decreases self.remaining(), 95nat,
    {
        let stepped = self.for_increment(loop_start);
        if stepped.within(self) {
            stepped.for_body(self.for_loop_target(loop_start), exit_jump)
        } else {
            stepped
        }
    }

    /// What follows the initializer of a `for`: the loop itself.
    pub open spec fn for_loop(self) -> ParserView
        decreases self.remaining(), 97nat,
    {
        let tested = self.for_condition();
        if tested.within(self) {
            tested.for_tail(self.chunk.code.len() as int, self.for_exit_jump())
        } else {
            tested
        }
    }

    /// `for (INITIALIZER; CONDITION; INCREMENT) STATEMENT`, the `for` being
    /// read. The loop has a scope of its own.
    pub open spec fn for_statement(self) -> ParserView
        decreases self.remaining(), 110nat,
    {
        let opened = self.begin_scope().consume(
            TokenType::LeftParen,
            "Expect '(' after 'for'.".spec_bytes(),
        );
        let initialized = if opened.within(self) {
            opened.for_initializer()
        } else {
            opened
        };
        if initialized.within(self) {
            initialized.for_loop()
        } else {
            initialized
        }.end_scope()
    }

    /// A statement: `print`, `if`, `while`, `for`, a block, or an
    /// expression.
    pub open spec fn statement(self) -> ParserView
        decreases self.remaining(), 80nat,
    {
        if self.check(TokenType::Print) {
            let read = self.advance();
            if read.below(self) {
                read.print_statement()
            } else {
                read
            }
        } else if self.check(TokenType::If) {
            let read = self.advance();
            if read.below(self) {
                read.if_statement()
            } else {
                read
            }
        } else if self.check(TokenType::While) {
            let read = self.advance();
            if read.below(self) {
                read.while_statement()
            } else {
                read
            }
        } else if self.check(TokenType::For) {
            let read = self.advance();
            if read.below(self) {
                read.for_statement()
            } else {
                read
            }
        } else if self.check(TokenType::LeftBrace) {
            let read = self.advance().begin_scope();
            if read.below(self) {
                read.block()
            } else {
                read
            }.end_scope()
        } else {
            self.expression_statement()
        }
    }

    /// A variable declaration or a statement. After an error the pass skips
    /// to the next statement.
    pub open spec fn declaration(self) -> ParserView
        decreases self.remaining(), 90nat,
    {
        let parsed = if self.check(TokenType::Var) {
            let read = self.advance();
            if read.below(self) {
                read.var_declaration()
            } else {
                read
            }
        } else {
            self.statement()
        };
        if parsed.panic_mode {
            parsed.synchronize()
        } else {
            parsed
        }
    }

    /// The declarations of the script, up to the end of the source.
    pub open spec fn declarations(self) -> ParserView
        decreases self.remaining(), 140nat,
    {
        if self.check(TokenType::EOF) {
            self.advance()
        } else {
            let declared = self.declaration();
            if declared.below(self) {
                declared.declarations()
            } else {
                declared
            }
        }
    }

    /// The whole pass: the first token, the declarations, and the return
    /// that ends the script.
    pub open spec fn compile(self) -> ParserView {
        self.advance().declarations().emit_return()
    }
}

/// Where the operand of a jump stands, or -1 for no jump.
pub open spec fn jump_or_none(jump: Option<usize>) -> int {
    match jump {
        Some(offset) => offset as int,
        None => -1,
    }
}

/// The local that stands for the function itself: it has no name, so no
/// variable resolves to it.
pub open spec fn reserved_local() -> Local {
    Local { name: Token { token_type: TokenType::EOF, start: 0, length: 0, line: 0 }, depth: 0 }
}

impl ParserView {
    /// The pass before it has read a token.
    pub open spec fn start(
        source: Seq<u8>,
        literals: Seq<u64>,
        chunk: ChunkView,
        heap: Seq<ObjView>,
        diagnostics: Seq<u8>,
    ) -> ParserView {
        ParserView {
            source,
            literals,
            cursor: 0,
            position: 0,
            current: Token { token_type: TokenType::EOF, start: 0, length: 0, line: 0 },
            current_number: 0,
            previous: Token { token_type: TokenType::EOF, start: 0, length: 0, line: 0 },
            previous_number: 0,
            had_error: false,
            panic_mode: false,
            diagnostics,
            chunk,
            heap,
            locals: seq![reserved_local()],
            scope_depth: 0,
        }
    }
}

/// The distance that the two bytes of a jump operand at `offset` stand for.
pub open spec fn operand_at(code: Seq<u8>, offset: int) -> int {
    code[offset] * 256 + code[offset + 1]
}

/// Whether the pass is in a state that compiling can reach: it panics only
/// after an error.
pub open spec fn sound(state: ParserView) -> bool {
    state.panic_mode ==> state.had_error
}

/// A jump that is patched, forward or back, either carries its distance in
/// its operand, which holds no more than 65535, or the compile has failed.
pub proof fn lemma_jump_operands_fit(state: ParserView, offset: int, loop_start: int)
    requires
        sound(state),
        0 <= offset,
        offset + 2 <= state.chunk.code.len(),
        0 <= loop_start <= state.chunk.code.len(),
    ensures
        ({
            let patched = state.patch_jump(offset);
            let forward = state.chunk.code.len() - offset - 2;
            let looped = state.emit_loop(loop_start);
            let back = state.chunk.code.len() + 3 - loop_start;
            let at = (state.chunk.code.len() + 1) as int;
            &&& sound(patched) && sound(looped)
            &&& 0 <= operand_at(patched.chunk.code, offset) <= 65535
            &&& 0 <= operand_at(looped.chunk.code, at) <= 65535
            &&& forward <= 65535 ==> operand_at(patched.chunk.code, offset) == forward
                && patched.had_error == state.had_error
            &&& forward > 65535 ==> patched.had_error
            &&& looped.chunk.code.len() == state.chunk.code.len() + 3
            &&& looped.chunk.code[state.chunk.code.len() as int] == opcode_byte(OpCode::Loop)
            &&& back <= 65535 ==> operand_at(looped.chunk.code, at) == back && looped.had_error
                == state.had_error
            &&& back > 65535 ==> looped.had_error
        }),
{
    reveal(ParserView::patch_jump);
    reveal(ParserView::emit_loop);
}

} // verus!
