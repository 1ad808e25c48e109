//! The compiler's pass: it reads tokens from the scanner and writes
//! bytecode to a chunk. Each function computes what the production of its
//! name is in the model.

use vstd::prelude::*;
use vstd::string::*;
use crate::chunk::Chunk;
use crate::chunk::OpCode;
use crate::compiler::Compiler;
use crate::compiler::Local;
use crate::compiler::LOCALS_MAX;
use crate::compiler::ParseFn;
use crate::compiler::ParseRule;
use crate::compiler::Precedence;
use crate::compiler::TOKEN_COUNT;
use crate::compiler::index_of;
use crate::compiler::number_tokens;
use crate::compiler::rule_of;
use crate::compiler::token_index;
use crate::compiler::model::ParserView;
use crate::compiler::model::error_line;
use crate::compiler::model::jump_or_none;
use crate::compiler::model::lexeme;
use crate::object::ObjArray;
use crate::object::ObjView;
use crate::object::interned;
use crate::object::string_index;
use crate::scanner::Scanner;
use crate::scanner::Token;
use crate::scanner::TokenType;
use crate::scanner::lemma_scan_advances;
use crate::text::append_bytes;
use crate::text::append_decimal;
use crate::text::copy_range;
use crate::text::ranges_equal;
use crate::value::Value;

verus! {

/// The pass itself: the scanner it reads from, the chunk and the heap it
/// writes to, and what it has reported.
pub struct Parser {
    pub compiler: Compiler,
    pub rules: Vec<ParseRule>,
    pub scanner: Scanner,
    pub obj_array: ObjArray,
    pub chunk: Chunk,
    pub literals: Vec<u64>,
    pub cursor: usize,
    pub current: Token,
    pub current_number: u64,
    pub previous: Token,
    pub previous_number: u64,
    pub had_error: bool,
    pub panic_mode: bool,
    pub diagnostics: Vec<u8>,
}

impl View for Parser {
    type V = ParserView;

    open spec fn view(&self) -> ParserView {
        ParserView {
            source: self.scanner.source@,
            literals: self.literals@,
            cursor: self.cursor as int,
            position: self.scanner.current as int,
            current: self.current,
            current_number: self.current_number,
            previous: self.previous,
            previous_number: self.previous_number,
            had_error: self.had_error,
            panic_mode: self.panic_mode,
            diagnostics: self.diagnostics@,
            chunk: self.chunk@,
            heap: self.obj_array@,
            locals: self.compiler.locals@,
            scope_depth: self.compiler.scope_depth as int,
        }
    }
}

impl Parser {
    /// What holds of the pass whatever the current token is.
    pub open spec fn base(&self) -> bool {
        &&& self.scanner.wf()
        &&& self.previous.start + self.previous.length <= self.scanner.current
        &&& self.previous.token_type != TokenType::Error
        &&& self.chunk.wf()
        &&& self.obj_array.wf()
        &&& 1 <= self.compiler.locals@.len() <= LOCALS_MAX
        &&& self.compiler.locals@[0].depth == 0
        &&& forall|i: int|
            0 <= i < self.compiler.locals@.len() ==> (#[trigger] self.compiler.locals@[i]).name.start
                + self.compiler.locals@[i].name.length <= self.scanner.source@.len()
        &&& 0 <= self.compiler.scope_depth
        &&& self.cursor + number_tokens(self.scanner.source@, self.scanner.current as int).len()
            == self.literals@.len()
        &&& self.rules@.len() == TOKEN_COUNT
        &&& forall|t: TokenType| #[trigger] self.rules@[token_index(t)] == rule_of(t)
    }

    /// The current token is the one that the scanner stands behind, and no
    /// error; the scopes are no deeper than the source read so far is long.
    pub open spec fn wf(&self) -> bool {
        &&& self.base()
        &&& self.scanner.current == self.current.start + self.current.length
        &&& self.current.token_type != TokenType::Error
        &&& self.current.token_type != TokenType::EOF ==> self.current.length >= 1
        &&& self.previous.start + self.previous.length <= self.current.start
        &&& self.compiler.scope_depth <= self.current.start
    }

    /// Nothing but the report has changed since `before`.
    pub open spec fn reported_since(&self, before: Parser) -> bool {
        &&& self.compiler == before.compiler
        &&& self.rules == before.rules
        &&& self.scanner == before.scanner
        &&& self.obj_array == before.obj_array
        &&& self.chunk == before.chunk
        &&& self.literals == before.literals
        &&& self.cursor == before.cursor
        &&& self.current == before.current
        &&& self.previous == before.previous
        &&& before.had_error ==> self.had_error
    }

    /// Nothing but the chunk has changed since `before`.
    pub open spec fn emitted_since(&self, before: Parser) -> bool {
        &&& self.compiler == before.compiler
        &&& self.rules == before.rules
        &&& self.scanner == before.scanner
        &&& self.obj_array == before.obj_array
        &&& self.literals == before.literals
        &&& self.cursor == before.cursor
        &&& self.current == before.current
        &&& self.previous == before.previous
        &&& self.chunk.wf() == before.chunk.wf()
        &&& self.chunk@.code.len() >= before.chunk@.code.len()
    }

    fn error_at(&mut self, token: Token, message: &[u8])
        requires
            token.within(old(self).scanner.source@.len()),
        ensures
            final(self)@ == old(self)@.error_at(token, message@),
            final(self).reported_since(*old(self)),
    {
        proof {
            reveal(error_line);
        }
        if self.panic_mode {
            return;
        }
        self.panic_mode = true;
        let mut line: Vec<u8> = Vec::new();
        append_bytes(&mut line, "[line ".as_bytes());
        append_decimal(&mut line, token.line as i128);
        append_bytes(&mut line, "] Error".as_bytes());
        match token.token_type {
            TokenType::EOF => {
                append_bytes(&mut line, " at end".as_bytes());
            },
            _ => {
                append_bytes(&mut line, " at '".as_bytes());
                let text = token.text(self.scanner.source.as_slice());
                append_bytes(&mut line, text.as_slice());
                append_bytes(&mut line, "'".as_bytes());
            },
        }
        if message.len() > 0 {
            append_bytes(&mut line, ": ".as_bytes());
            append_bytes(&mut line, message);
        }
        append_bytes(&mut line, "\n".as_bytes());
        assert(line@ =~= error_line(self.scanner.source@, token, message@));
        append_bytes(&mut self.diagnostics, line.as_slice());
        self.had_error = true;
    }

    fn error_at_current(&mut self, message: &[u8])
        requires
            old(self).current.within(old(self).scanner.source@.len()),
        ensures
            final(self)@ == old(self)@.error_at_current(message@),
            final(self).reported_since(*old(self)),
    {
        let token = self.current;
        self.error_at(token, message);
    }

    fn error(&mut self, message: &[u8])
        requires
            old(self).wf(),
        ensures
            final(self)@ == old(self)@.error(message@),
            final(self).reported_since(*old(self)),
            final(self).wf(),
    {
        let token = self.previous;
        self.error_at(token, message);
    }

    /// Moves to the next token, reporting the errors the scanner meets.
    pub(crate) fn advance(&mut self)
        requires
            old(self).wf(),
        ensures
            final(self).wf(),
            final(self)@ == old(self)@.advance(),
            old(self)@.leads_to(final(self)@),
            final(self).previous == old(self).current,
            final(self).compiler == old(self).compiler,
            final(self).chunk == old(self).chunk,
            final(self).obj_array == old(self).obj_array,
            old(self).current.token_type != TokenType::EOF ==> final(self)@.remaining() < old(
                self,
            )@.remaining(),
    {
        proof {
            reveal(ParserView::skip_errors);
        }
        proof {
            reveal(ParserView::advance);
        }
        self.previous = self.current;
        self.previous_number = self.current_number;
        let ghost begun = self@;
        let mut done = false;
        while !done
            invariant
                self.base(),
                self.compiler == old(self).compiler,
                self.chunk == old(self).chunk,
                self.obj_array == old(self).obj_array,
                self.scanner.source == old(self).scanner.source,
                self.literals == old(self).literals,
                self.previous == old(self).current,
                old(self).wf(),
                old(self).had_error ==> self.had_error,
                old(self).scanner.current <= self.scanner.current,
                !done ==> begun.skip_errors() == self@.skip_errors(),
                done ==> begun.skip_errors() == self@ && self.wf(),
            decreases
                    (if done {
                        0
                    } else {
                        self.scanner.source@.len() - self.scanner.current + 1
                    }),
        {
            proof {
                reveal(ParserView::skip_errors);
            }
            let ghost before = self@;
            let ghost position = self.scanner.current as int;
            proof {
                lemma_scan_advances(self.scanner.source@, position);
            }
            let token = self.scanner.scan_token();
            self.current = token;
            match token.token_type {
                TokenType::Number => {
                    self.current_number = if self.cursor < self.literals.len() {
                        self.literals[self.cursor]
                    } else {
                        0
                    };
                    self.cursor += 1;
                },
                _ => {},
            }
            assert(self@ == before.scanned());
            match token.token_type {
                TokenType::Error => {
                    self.error_at_current("".as_bytes());
                    proof {
                        lemma_empty_text();
                    }
                },
                _ => {
                    done = true;
                },
            }
        }
    }

    fn check(&self, token_type: TokenType) -> (r: bool)
        ensures
            r == self@.check(token_type),
    {
        self.current.token_type == token_type
    }

    /// Moves past a token of the given kind, or reports that it is missing.
    fn consume(&mut self, token_type: TokenType, message: &[u8])
        requires
            old(self).wf(),
        ensures
            final(self).wf(),
            final(self)@ == old(self)@.consume(token_type, message@),
            old(self)@.leads_to(final(self)@),
            final(self).compiler == old(self).compiler,
            final(self).chunk == old(self).chunk,
    {
        proof {
            reveal(ParserView::consume);
        }
        if self.current.token_type == token_type {
            self.advance();
            return;
        }
        self.error_at_current(message);
    }

    /// Moves past the current token if it is of the given kind.
    fn match_token(&mut self, token_type: TokenType) -> (matched: bool)
        requires
            old(self).wf(),
        ensures
            final(self).wf(),
            matched == old(self)@.check(token_type),
            final(self)@ == old(self)@.match_token(token_type),
            old(self)@.leads_to(final(self)@),
            final(self).compiler == old(self).compiler,
            final(self).chunk == old(self).chunk,
            matched ==> final(self).previous == old(self).current,
            matched && token_type != TokenType::EOF ==> final(self)@.remaining() < old(
                self,
            )@.remaining(),
    {
        proof {
            reveal(ParserView::match_token);
        }
        if !self.check(token_type) {
            return false;
        }
        self.advance();
        true
    }

    fn emit_byte(&mut self, byte: u8)
        requires
            old(self).wf(),
        ensures
            final(self).wf(),
            final(self)@ == old(self)@.emit_byte(byte),
            final(self).emitted_since(*old(self)),
            old(self)@.leads_to(final(self)@),
    {
        self.chunk.write_chunk(byte, self.previous.line);
    }

    fn emit_op(&mut self, op: OpCode)
        requires
            old(self).wf(),
        ensures
            final(self).wf(),
            final(self)@ == old(self)@.emit_op(op),
            final(self).emitted_since(*old(self)),
            old(self)@.leads_to(final(self)@),
    {
        self.emit_byte(op.to_byte());
    }

    fn emit_bytes(&mut self, byte1: u8, byte2: u8)
        requires
            old(self).wf(),
        ensures
            final(self).wf(),
            final(self)@ == old(self)@.emit_bytes(byte1, byte2),
            final(self).emitted_since(*old(self)),
            old(self)@.leads_to(final(self)@),
    {
        self.emit_byte(byte1);
        self.emit_byte(byte2);
    }

    fn emit_return(&mut self)
        requires
            old(self).wf(),
        ensures
            final(self).wf(),
            final(self)@ == old(self)@.emit_return(),
            old(self)@.leads_to(final(self)@),
    {
        self.emit_op(OpCode::Nil);
        self.emit_op(OpCode::Return);
    }

    pub(crate) fn end_compiler(&mut self)
        requires
            old(self).wf(),
        ensures
            final(self).wf(),
            final(self)@ == old(self)@.emit_return(),
            old(self)@.leads_to(final(self)@),
    {
        self.emit_return();
    }

    /// Adds a constant to the pool and returns its index, or reports that
    /// the pool is full and returns 0.
    fn make_constant(&mut self, value: Value) -> (index: u8)
        requires
            old(self).wf(),
        ensures
            final(self).wf(),
            final(self)@ == old(self)@.make_constant(value),
            index == old(self)@.constant_index(),
            old(self)@.leads_to(final(self)@),
            final(self).compiler == old(self).compiler,
    {
        proof {
            reveal(ParserView::make_constant);
        }
        let constant = self.chunk.add_constant(value);
        if constant > 255 {
            self.error("Too many constants in one chunk.".as_bytes());
            return 0;
        }
        constant as u8
    }

    fn emit_constant(&mut self, value: Value)
        requires
            old(self).wf(),
        ensures
            final(self).wf(),
            final(self)@ == old(self)@.emit_constant(value),
            old(self)@.leads_to(final(self)@),
            final(self).compiler == old(self).compiler,
    {
        proof {
            reveal(ParserView::emit_constant);
        }
        let constant = self.make_constant(value);
        self.emit_bytes(OpCode::Constant.to_byte(), constant);
    }

    /// Interns the bytes `source[start..end]` and adds the string to the
    /// constant pool.
    fn string_constant(&mut self, start: usize, end: usize) -> (index: u8)
        requires
            old(self).wf(),
            start <= end <= old(self).scanner.source@.len(),
        ensures
            final(self).wf(),
            final(self)@ == old(self)@.string_constant(
                old(self).scanner.source@.subrange(start as int, end as int),
            ),
            index == old(self)@.constant_index(),
            old(self)@.leads_to(final(self)@),
            final(self).compiler == old(self).compiler,
    {
        proof {
            reveal(ParserView::string_constant);
        }
        let text = copy_range(self.scanner.source.as_slice(), start, end);
        let object = self.obj_array.copy_string(text.as_slice());
        proof {
            let heap = interned(old(self)@.heap, text@);
            assert(heap[object as int] == ObjView::String(text@));
            let chosen = string_index(heap, text@);
            assert(heap[chosen] == ObjView::String(text@));
            assert(chosen == object);
        }
        self.make_constant(Value::Obj(object))
    }

    /// Adds the name of a variable to the constant pool.
    fn identifier_constant(&mut self, name: &Token) -> (index: u8)
        requires
            old(self).wf(),
            name.start + name.length <= old(self).scanner.source@.len(),
        ensures
            final(self).wf(),
            final(self)@ == old(self)@.identifier_constant(*name),
            index == old(self)@.constant_index(),
            old(self)@.leads_to(final(self)@),
            final(self).compiler == old(self).compiler,
    {
        let _ = self.scanner.source.len();
        self.string_constant(name.start, name.start + name.length)
    }

    /// Emits a jump with a placeholder for its distance, and returns where
    /// the placeholder stands.
    fn emit_jump(&mut self, op: OpCode) -> (offset: usize)
        requires
            old(self).wf(),
        ensures
            final(self).wf(),
            final(self)@ == old(self)@.emit_jump(op),
            offset == old(self)@.jump_operand(),
            offset + 2 == final(self)@.chunk.code.len(),
            final(self).emitted_since(*old(self)),
            old(self)@.leads_to(final(self)@),
    {
        self.emit_op(op);
        self.emit_byte(0xff);
        self.emit_byte(0xff);
        self.chunk.code.len() - 2
    }

    /// Makes the jump whose operand stands at `offset` land here.
    fn patch_jump(&mut self, offset: usize)
        requires
            old(self).wf(),
            offset + 2 <= old(self)@.chunk.code.len(),
        ensures
            final(self).wf(),
            final(self)@ == old(self)@.patch_jump(offset as int),
            final(self)@.chunk.code.len() == old(self)@.chunk.code.len(),
            old(self)@.leads_to(final(self)@),
            final(self).compiler == old(self).compiler,
    {
        proof {
            reveal(ParserView::patch_jump);
        }
        let jump = self.chunk.code.len() - offset - 2;
        if jump > 65535 {
            self.error("Too much code to jump over.".as_bytes());
        }
        self.chunk.code.set(offset, ((jump / 256) % 256) as u8);
        self.chunk.code.set(offset + 1, (jump % 256) as u8);
        assert(self@ =~= old(self)@.patch_jump(offset as int));
    }

    /// Emits a jump back to `loop_start`.
    fn emit_loop(&mut self, loop_start: usize)
        requires
            old(self).wf(),
            loop_start <= old(self)@.chunk.code.len(),
        ensures
            final(self).wf(),
            final(self)@ == old(self)@.emit_loop(loop_start as int),
            old(self)@.leads_to(final(self)@),
            final(self).compiler == old(self).compiler,
    {
        proof {
            reveal(ParserView::emit_loop);
        }
        self.emit_op(OpCode::Loop);
        let offset: u128 = (self.chunk.code.len() - loop_start) as u128 + 2;
        if offset > 65535 {
            self.error("Loop body too large.".as_bytes());
        }
        self.emit_byte(((offset / 256) % 256) as u8);
        self.emit_byte((offset % 256) as u8);
    }

    /// Opens a scope. The token that opened it has just been read.
    fn begin_scope(&mut self)
        requires
            old(self).wf(),
            old(self).compiler.scope_depth < old(self).current.start,
        ensures
            final(self).wf(),
            final(self)@ == old(self)@.begin_scope(),
            final(self).compiler.scope_depth == old(self).compiler.scope_depth + 1,
            final(self).chunk == old(self).chunk,
            final(self)@.remaining() == old(self)@.remaining(),
    {
        self.compiler.scope_depth += 1;
    }

    /// Closes a scope, and pops the locals that it declared.
    fn end_scope(&mut self)
        requires
            old(self).wf(),
            old(self).compiler.scope_depth >= 1,
        ensures
            final(self).wf(),
            final(self)@ == old(self)@.end_scope(),
            final(self).scanner == old(self).scanner,
            final(self).literals == old(self).literals,
            final(self).compiler.scope_depth == old(self).compiler.scope_depth - 1,
            final(self)@.chunk.code.len() >= old(self)@.chunk.code.len(),
            final(self)@.remaining() == old(self)@.remaining(),
            old(self).had_error ==> final(self).had_error,
    {
        proof {
            reveal(ParserView::end_scope);
            reveal(ParserView::pop_locals);
        }
        self.compiler.scope_depth -= 1;
        let ghost begun = self@;
        while self.compiler.locals.len() > 0 && self.compiler.locals[self.compiler.locals.len()
            - 1].depth > self.compiler.scope_depth
            invariant
                self.wf(),
                self.compiler.scope_depth == old(self).compiler.scope_depth - 1,
                self.scanner == old(self).scanner,
                self.literals == old(self).literals,
                self@.pop_locals() == begun.pop_locals(),
                self@.chunk.code.len() >= old(self)@.chunk.code.len(),
                self@.remaining() == old(self)@.remaining(),
                self.had_error == old(self).had_error,
            decreases self.compiler.locals@.len(),
        {
            proof {
                reveal(ParserView::end_scope);
                reveal(ParserView::pop_locals);
            }
            self.emit_op(OpCode::Pop);
            let ghost emitted = self@;
            self.compiler.locals.pop();
            assert(self@ =~= (ParserView { locals: emitted.locals.drop_last(), ..emitted }));
        }
    }

    fn get_rule(&self, token_type: TokenType) -> (rule: ParseRule)
        requires
            self.wf(),
        ensures
            rule == rule_of(token_type),
    {
        self.rules[index_of(token_type)]
    }

    /// Whether two tokens span the same text.
    fn identifiers_equal(&self, a: &Token, b: &Token) -> (r: bool)
        requires
            a.start + a.length <= self.scanner.source@.len(),
            b.start + b.length <= self.scanner.source@.len(),
        ensures
            r == (lexeme(self.scanner.source@, *a) == lexeme(self.scanner.source@, *b)),
    {
        ranges_equal(self.scanner.source.as_slice(), a.start, a.length, b.start, b.length)
    }

    fn add_local(&mut self, name: Token)
        requires
            old(self).wf(),
            name.within(old(self).scanner.source@.len()),
        ensures
            final(self).wf(),
            final(self)@ == old(self)@.add_local(name),
            old(self)@.leads_to(final(self)@),
            final(self).chunk == old(self).chunk,
            final(self).previous == old(self).previous,
    {
        proof {
            reveal(ParserView::add_local);
        }
        if self.compiler.locals.len() >= LOCALS_MAX {
            self.error_at(name, "Too many local variables in function.".as_bytes());
            return;
        }
        self.compiler.locals.push(Local { name, depth: -1 });
        assert(self.compiler.locals@[0] == old(self).compiler.locals@[0]);
        assert forall|i: int| 0 <= i < self.compiler.locals@.len() implies (
        #[trigger] self.compiler.locals@[i]).name.start + self.compiler.locals@[i].name.length
            <= self.scanner.source@.len() by {
            if i < old(self).compiler.locals@.len() {
                assert(self.compiler.locals@[i] == old(self).compiler.locals@[i]);
            }
        }
    }

    /// Declares the variable that the previous token names, if the scope is
    /// local.
    fn declare_variable(&mut self)
        requires
            old(self).wf(),
        ensures
            final(self).wf(),
            final(self)@ == old(self)@.declare_variable(),
            old(self)@.leads_to(final(self)@),
            final(self).chunk == old(self).chunk,
            final(self).previous == old(self).previous,
    {
        proof {
            reveal(ParserView::declare_variable);
        }
        if self.compiler.scope_depth == 0 {
            return;
        }
        let name = self.previous;
        let mut found = false;
        let mut i: usize = self.compiler.locals.len();
        let mut stop = false;
        while i > 0 && !stop
            invariant
                self.wf(),
                *self == *old(self),
                name == self.previous,
                i <= self.compiler.locals@.len(),
                self@.declared_in_scope(name, self.compiler.locals@.len() as int) == (found || (
                !stop && self@.declared_in_scope(name, i as int))),
            decreases
                    i + (if stop {
                        0int
                    } else {
                        1int
                    }),
        {
            let local = self.compiler.locals[i - 1];
            if local.depth != -1 && local.depth < self.compiler.scope_depth {
                stop = true;
            } else {
                if self.identifiers_equal(&name, &local.name) {
                    found = true;
                }
                i -= 1;
            }
        }
        if found {
            self.error("Already a variable with this name in this scope.".as_bytes());
        }
        self.add_local(name);
    }

    fn mark_initialized(&mut self)
        requires
            old(self).wf(),
        ensures
            final(self).wf(),
            final(self)@ == old(self)@.mark_initialized(),
            old(self)@.leads_to(final(self)@),
            final(self).chunk == old(self).chunk,
    {
        proof {
            reveal(ParserView::mark_initialized);
        }
        let count = self.compiler.locals.len();
        if count > 1 {
            let local = self.compiler.locals[count - 1];
            self.compiler.locals.set(
                count - 1,
                Local { name: local.name, depth: self.compiler.scope_depth },
            );
            assert(self@ =~= old(self)@.mark_initialized());
            assert forall|i: int| 0 <= i < self.compiler.locals@.len() implies (
            #[trigger] self.compiler.locals@[i]).name.start
                + self.compiler.locals@[i].name.length <= self.scanner.source@.len() by {
                if i < count - 1 {
                    assert(self.compiler.locals@[i] == old(self).compiler.locals@[i]);
                } else {
                    assert(local == old(self).compiler.locals@[i]);
                }
            }
        }
    }

    fn define_variable(&mut self, global: u8)
        requires
            old(self).wf(),
        ensures
            final(self).wf(),
            final(self)@ == old(self)@.define_variable(global),
            old(self)@.leads_to(final(self)@),
    {
        proof {
            reveal(ParserView::define_variable);
        }
        if self.compiler.scope_depth > 0 {
            self.mark_initialized();
            return;
        }
        self.emit_bytes(OpCode::DefineGlobal.to_byte(), global);
    }

    /// Looks `name` up among the locals, the newest first.
    fn resolve_local(&mut self, name: &Token) -> (slot: Option<u8>)
        requires
            old(self).wf(),
            name.start + name.length <= old(self).scanner.source@.len(),
        ensures
            final(self).wf(),
            old(self)@.leads_to(final(self)@),
            final(self).chunk == old(self).chunk,
            final(self).compiler == old(self).compiler,
            final(self).obj_array == old(self).obj_array,
            final(self).current == old(self).current,
            final(self).previous == old(self).previous,
            match slot {
                Some(index) => index == old(self)@.local_slot(
                    *name,
                    old(self)@.locals.len() as int,
                ) && final(self)@ == old(self)@.resolve_local(*name),
                None => old(self)@.local_slot(*name, old(self)@.locals.len() as int) == -1
                    && final(self)@ == old(self)@,
            },
    {
        proof {
            reveal(ParserView::resolve_local);
        }
        let mut i: usize = self.compiler.locals.len();
        while i > 0
            invariant
                self.wf(),
                *self == *old(self),
                i <= self.compiler.locals@.len(),
                name.start + name.length <= self.scanner.source@.len(),
                self@.local_slot(*name, self.compiler.locals@.len() as int) == self@.local_slot(
                    *name,
                    i as int,
                ),
            decreases i,
        {
            proof {
                reveal(ParserView::resolve_local);
            }
            let local = self.compiler.locals[i - 1];
            if self.identifiers_equal(name, &local.name) {
                if local.depth == -1 {
                    self.error("Can't read local variable in its own initializer.".as_bytes());
                }
                return Some((i - 1) as u8);
            }
            i -= 1;
        }
        None
    }

    /// Leaves panic mode and skips to the next statement boundary.
    fn synchronize(&mut self)
        requires
            old(self).wf(),
        ensures
            final(self).wf(),
            final(self)@ == old(self)@.synchronize(),
            old(self)@.leads_to(final(self)@),
    {
        proof {
            reveal(ParserView::synchronize);
            reveal(ParserView::skip_to_boundary);
        }
        self.panic_mode = false;
        let ghost begun = self@;
        loop
            invariant
                self.wf(),
                old(self)@.leads_to(self@),
                self@.skip_to_boundary() == begun.skip_to_boundary(),
                begun.skip_to_boundary() == old(self)@.synchronize(),
            decreases self@.remaining(),
        {
            proof {
                reveal(ParserView::synchronize);
                reveal(ParserView::skip_to_boundary);
            }
            match self.current.token_type {
                TokenType::EOF => {
                    return;
                },
                TokenType::Class
                | TokenType::Fun
                | TokenType::Var
                | TokenType::For
                | TokenType::If
                | TokenType::While
                | TokenType::Print
                | TokenType::Return => {
                    return;
                },
                _ => {},
            }
            match self.previous.token_type {
                TokenType::Semicolon => {
                    return;
                },
                _ => {},
            }
            self.advance();
        }
    }

    /// Reads the name of a variable and declares it. For a global, returns
    /// the constant that holds the name.
    fn parse_variable(&mut self, error_message: &[u8]) -> (index: u8)
        requires
            old(self).wf(),
        ensures
            final(self).wf(),
            final(self)@ == old(self)@.parse_variable(error_message@),
            index == old(self)@.parse_variable_index(error_message@),
            old(self)@.leads_to(final(self)@),
    {
        proof {
            reveal(ParserView::parse_variable);
            reveal(ParserView::parse_variable_index);
        }
        self.consume(TokenType::Identifier, error_message);
        self.declare_variable();
        if self.compiler.scope_depth > 0 {
            return 0;
        }
        let token = self.previous;
        self.identifier_constant(&token)
    }

    fn number(&mut self)
        requires
            old(self).wf(),
        ensures
            final(self).wf(),
            final(self)@ == old(self)@.number(),
            old(self)@.leads_to(final(self)@),
    {
        proof {
            reveal(ParserView::number);
        }
        self.emit_constant(Value::number(self.previous_number));
    }

    fn string(&mut self)
        requires
            old(self).wf(),
        ensures
            final(self).wf(),
            final(self)@ == old(self)@.string(),
            old(self)@.leads_to(final(self)@),
    {
        proof {
            reveal(ParserView::string);
        }
        let token = self.previous;
        let constant = if token.length >= 2 {
            self.string_constant(token.start + 1, token.start + token.length - 1)
        } else {
            self.string_constant(0, 0)
        };
        assert(old(self).scanner.source@.subrange(0, 0) =~= Seq::<u8>::empty());
        self.emit_bytes(OpCode::Constant.to_byte(), constant);
    }

    fn literal(&mut self)
        requires
            old(self).wf(),
        ensures
            final(self).wf(),
            final(self)@ == old(self)@.literal(),
            old(self)@.leads_to(final(self)@),
    {
        proof {
            reveal(ParserView::literal);
        }
        match self.previous.token_type {
            TokenType::False => self.emit_op(OpCode::False),
            TokenType::Nil => self.emit_op(OpCode::Nil),
            TokenType::True => self.emit_op(OpCode::True),
            _ => {},
        }
    }

    fn emit_operator(&mut self, operator: TokenType)
        requires
            old(self).wf(),
        ensures
            final(self).wf(),
            final(self)@ == old(self)@.emit_operator(operator),
            old(self)@.leads_to(final(self)@),
    {
        proof {
            reveal(ParserView::emit_operator);
        }
        match operator {
            TokenType::Plus => self.emit_op(OpCode::Add),
            TokenType::Minus => self.emit_op(OpCode::Subtract),
            TokenType::Star => self.emit_op(OpCode::Multiply),
            TokenType::Slash => self.emit_op(OpCode::Divide),
            TokenType::BangEqual => {
                self.emit_op(OpCode::Equal);
                self.emit_op(OpCode::Not);
            },
            TokenType::EqualEqual => self.emit_op(OpCode::Equal),
            TokenType::Greater => self.emit_op(OpCode::Greater),
            TokenType::GreaterEqual => {
                self.emit_op(OpCode::Less);
                self.emit_op(OpCode::Not);
            },
            TokenType::Less => self.emit_op(OpCode::Less),
            TokenType::LessEqual => {
                self.emit_op(OpCode::Greater);
                self.emit_op(OpCode::Not);
            },
            _ => {},
        }
    }

    #[verifier::spinoff_prover]
    fn parse_precedence(&mut self, precedence: Precedence)
        requires
            old(self).wf(),
            precedence != Precedence::Lowest,
        ensures
            final(self).wf(),
            final(self)@ == old(self)@.parse_precedence(precedence),
            old(self)@.leads_to(final(self)@),
            old(self).current.token_type != TokenType::EOF ==> final(self)@.below(old(self)@),
        decreases old(self)@.remaining(), 40nat,
    {
        proof {
            reveal(ParserView::match_token);
        }
        self.advance();
        let prefix = self.get_rule(self.previous.token_type).prefix;
        match prefix {
            None => {
                self.error("Expect expression.".as_bytes());
            },
            Some(rule) => {
                let can_assign = precedence.to_level() <= Precedence::Assignment.to_level();
                self.prefix_rule(rule, can_assign);
                self.infix_loop(precedence, can_assign);
                if can_assign {
                    if self.match_token(TokenType::Equal) {
                        self.error("Invalid assignment target.".as_bytes());
                    }
                }
            },
        }
    }

    /// Compiles the operators that follow a left operand, as long as they
    /// bind at least as tightly as `precedence`.
    fn infix_loop(&mut self, precedence: Precedence, can_assign: bool)
        requires
            old(self).wf(),
            precedence != Precedence::Lowest,
        ensures
            final(self).wf(),
            final(self)@ == old(self)@.infix_loop(precedence, can_assign),
            old(self)@.leads_to(final(self)@),
        decreases old(self)@.remaining(), 30nat,
    {
        while precedence.to_level() <= self.get_rule(self.current.token_type).precedence.to_level()
            invariant
                self.wf(),
                precedence != Precedence::Lowest,
                old(self)@.leads_to(self@),
                self@.infix_loop(precedence, can_assign) == old(self)@.infix_loop(
                    precedence,
                    can_assign,
                ),
            decreases self@.remaining(),
        {
            self.advance();
            let infix = self.get_rule(self.previous.token_type).infix;
            match infix {
                None => {
                    return;
                },
                Some(rule) => {
                    self.infix_rule(rule);
                },
            }
        }
    }

    fn prefix_rule(&mut self, rule: ParseFn, can_assign: bool)
        requires
            old(self).wf(),
        ensures
            final(self).wf(),
            final(self)@ == old(self)@.prefix_rule(rule, can_assign),
            old(self)@.leads_to(final(self)@),
        decreases old(self)@.remaining(), 130nat,
    {
        match rule {
            ParseFn::Grouping => self.grouping(can_assign),
            ParseFn::Unary => self.unary(can_assign),
            ParseFn::Variable => self.variable(can_assign),
            ParseFn::String => self.string(),
            ParseFn::Number => self.number(),
            ParseFn::Literal => self.literal(),
            _ => {},
        }
    }

    fn infix_rule(&mut self, rule: ParseFn)
        requires
            old(self).wf(),
        ensures
            final(self).wf(),
            final(self)@ == old(self)@.infix_rule(rule),
            old(self)@.leads_to(final(self)@),
        decreases old(self)@.remaining(), 130nat,
    {
        match rule {
            ParseFn::Binary => self.binary(),
            ParseFn::And => self.and_(),
            ParseFn::Or => self.or_(),
            _ => {},
        }
    }

    fn grouping(&mut self, _can_assign: bool)
        requires
            old(self).wf(),
        ensures
            final(self).wf(),
            final(self)@ == old(self)@.grouping(),
            old(self)@.leads_to(final(self)@),
        decreases old(self)@.remaining(), 120nat,
    {
        self.expression();
        self.consume(TokenType::RightParen, "Expect ')' after expression.".as_bytes());
    }

    fn unary(&mut self, _can_assign: bool)
        requires
            old(self).wf(),
        ensures
            final(self).wf(),
            final(self)@ == old(self)@.unary(),
            old(self)@.leads_to(final(self)@),
        decreases old(self)@.remaining(), 120nat,
    {
        let operator_type = self.previous.token_type;
        self.parse_precedence(Precedence::Unary);
        match operator_type {
            TokenType::Minus => self.emit_op(OpCode::Negate),
            TokenType::Bang => self.emit_op(OpCode::Not),
            _ => {},
        }
    }

    fn binary(&mut self)
        requires
            old(self).wf(),
        ensures
            final(self).wf(),
            final(self)@ == old(self)@.binary(),
            old(self)@.leads_to(final(self)@),
        decreases old(self)@.remaining(), 120nat,
    {
        let operator_type = self.previous.token_type;
        let rule = self.get_rule(operator_type);
        self.parse_precedence(rule.precedence.next());
        self.emit_operator(operator_type);
    }

    fn and_(&mut self)
        requires
            old(self).wf(),
        ensures
            final(self).wf(),
            final(self)@ == old(self)@.and_(),
            old(self)@.leads_to(final(self)@),
        decreases old(self)@.remaining(), 120nat,
    {
        let end_jump = self.emit_jump(OpCode::JumpIfFalse);
        self.emit_op(OpCode::Pop);
        self.parse_precedence(Precedence::And);
        self.patch_jump(end_jump);
    }

    fn or_(&mut self)
        requires
            old(self).wf(),
        ensures
            final(self).wf(),
            final(self)@ == old(self)@.or_(),
            old(self)@.leads_to(final(self)@),
        decreases old(self)@.remaining(), 120nat,
    {
        let else_jump = self.emit_jump(OpCode::JumpIfFalse);
        let end_jump = self.emit_jump(OpCode::Jump);
        self.patch_jump(else_jump);
        self.emit_op(OpCode::Pop);
        self.parse_precedence(Precedence::Or);
        self.patch_jump(end_jump);
    }

    fn variable(&mut self, can_assign: bool)
        requires
            old(self).wf(),
        ensures
            final(self).wf(),
            final(self)@ == old(self)@.variable(can_assign),
            old(self)@.leads_to(final(self)@),
        decreases old(self)@.remaining(), 120nat,
    {
        let name = self.previous;
        self.named_variable(&name, can_assign);
    }

    #[verifier::spinoff_prover]
    fn named_variable(&mut self, name: &Token, can_assign: bool)
        requires
            old(self).wf(),
            name.start + name.length <= old(self).scanner.source@.len(),
        ensures
            final(self).wf(),
            final(self)@ == old(self)@.named_variable(*name, can_assign),
            old(self)@.leads_to(final(self)@),
        decreases old(self)@.remaining(), 60nat,
    {
        proof {
            reveal(ParserView::match_token);
        }
        let resolved = self.resolve_local(name);
        let (arg, get_op, set_op) = match resolved {
            Some(slot) => (slot, OpCode::GetLocal, OpCode::SetLocal),
            None => {
                let constant = self.identifier_constant(name);
                (constant, OpCode::GetGlobal, OpCode::SetGlobal)
            },
        };
        let mut assigned = false;
        if can_assign {
            assigned = self.match_token(TokenType::Equal);
        }
        if assigned {
            self.expression();
            self.emit_bytes(set_op.to_byte(), arg);
        } else {
            self.emit_bytes(get_op.to_byte(), arg);
        }
    }

    fn expression(&mut self)
        requires
            old(self).wf(),
        ensures
            final(self).wf(),
            final(self)@ == old(self)@.expression(),
            old(self)@.leads_to(final(self)@),
            old(self).current.token_type != TokenType::EOF ==> final(self)@.below(old(self)@),
        decreases old(self)@.remaining(), 50nat,
    {
        self.parse_precedence(Precedence::Assignment);
    }

    fn print_statement(&mut self)
        requires
            old(self).wf(),
        ensures
            final(self).wf(),
            final(self)@ == old(self)@.print_statement(),
            old(self)@.leads_to(final(self)@),
        decreases old(self)@.remaining(), 60nat,
    {
        self.expression();
        self.consume(TokenType::Semicolon, "Expect ';' after value.".as_bytes());
        self.emit_op(OpCode::Print);
    }

    fn expression_statement(&mut self)
        requires
            old(self).wf(),
        ensures
            final(self).wf(),
            final(self)@ == old(self)@.expression_statement(),
            old(self)@.leads_to(final(self)@),
            old(self).current.token_type != TokenType::EOF ==> final(self)@.below(old(self)@),
        decreases old(self)@.remaining(), 60nat,
    {
        self.expression();
        self.consume(TokenType::Semicolon, "Expect ';' after value.".as_bytes());
        self.emit_op(OpCode::Pop);
    }

    #[verifier::spinoff_prover]
    fn var_declaration(&mut self)
        requires
            old(self).wf(),
        ensures
            final(self).wf(),
            final(self)@ == old(self)@.var_declaration(),
            old(self)@.leads_to(final(self)@),
        decreases old(self)@.remaining(), 70nat,
    {
        proof {
            reveal(ParserView::match_token);
        }
        let global = self.parse_variable("Expect variable name.".as_bytes());
        if self.match_token(TokenType::Equal) {
            self.expression();
        } else {
            self.emit_op(OpCode::Nil);
        }
        self.consume(TokenType::Semicolon, "Expect ';' after variable declaration.".as_bytes());
        self.define_variable(global);
    }

    #[verifier::spinoff_prover]
    fn block(&mut self)
        requires
            old(self).wf(),
        ensures
            final(self).wf(),
            final(self)@ == old(self)@.block(),
            old(self)@.leads_to(final(self)@),
        decreases old(self)@.remaining(), 100nat,
    {
        while !self.check(TokenType::RightBrace) && !self.check(TokenType::EOF)
            invariant
                self.wf(),
                old(self)@.leads_to(self@),
                self@.block() == old(self)@.block(),
            decreases self@.remaining(),
        {
            self.declaration();
        }
        self.consume(TokenType::RightBrace, "Expect '}' after block.".as_bytes());
    }

    /// `(` EXPRESSION `)`, as it follows `if` and `while`.
    fn condition(&mut self, message: &[u8])
        requires
            old(self).wf(),
        ensures
            final(self).wf(),
            final(self)@ == old(self)@.condition(message@),
            old(self)@.leads_to(final(self)@),
        decreases old(self)@.remaining(), 90nat,
    {
        self.consume(TokenType::LeftParen, message);
        self.expression();
        self.consume(TokenType::RightParen, "Expect ')' after condition.".as_bytes());
    }

    fn else_clause(&mut self)
        requires
            old(self).wf(),
        ensures
            final(self).wf(),
            final(self)@ == old(self)@.else_clause(),
            old(self)@.leads_to(final(self)@),
        decreases old(self)@.remaining(), 90nat,
    {
        proof {
            reveal(ParserView::match_token);
        }
        if self.match_token(TokenType::Else) {
            self.statement();
        }
    }

    #[verifier::spinoff_prover]
    fn if_statement(&mut self)
        requires
            old(self).wf(),
        ensures
            final(self).wf(),
            final(self)@ == old(self)@.if_statement(),
            old(self)@.leads_to(final(self)@),
        decreases old(self)@.remaining(), 110nat,
    {
        self.condition("Expect '(' after 'if'.".as_bytes());
        let then_jump = self.emit_jump(OpCode::JumpIfFalse);
        self.emit_op(OpCode::Pop);
        self.statement();
        let else_jump = self.emit_jump(OpCode::Jump);
        self.patch_jump(then_jump);
        self.emit_op(OpCode::Pop);
        self.else_clause();
        self.patch_jump(else_jump);
    }

    #[verifier::spinoff_prover]
    fn while_statement(&mut self)
        requires
            old(self).wf(),
        ensures
            final(self).wf(),
            final(self)@ == old(self)@.while_statement(),
            old(self)@.leads_to(final(self)@),
        decreases old(self)@.remaining(), 110nat,
    {
        let loop_start = self.chunk.code.len();
        self.condition("Expect '(' after 'while'.".as_bytes());
        let exit_jump = self.emit_jump(OpCode::JumpIfFalse);
        self.emit_op(OpCode::Pop);
        self.statement();
        self.emit_loop(loop_start);
        self.patch_jump(exit_jump);
        self.emit_op(OpCode::Pop);
    }

    #[verifier::spinoff_prover]
    fn for_initializer(&mut self)
        requires
            old(self).wf(),
        ensures
            final(self).wf(),
            final(self)@ == old(self)@.for_initializer(),
            old(self)@.leads_to(final(self)@),
        decreases old(self)@.remaining(), 90nat,
    {
        proof {
            reveal(ParserView::match_token);
        }
        if self.match_token(TokenType::Semicolon) {
            // No initializer.
        } else if self.match_token(TokenType::Var) {
            self.var_declaration();
        } else {
            self.expression_statement();
        }
    }

    /// Compiles the condition of a `for`, if there is one, and returns
    /// where the operand of the jump that leaves the loop stands.
    #[verifier::spinoff_prover]
    fn for_condition(&mut self) -> (exit_jump: Option<usize>)
        requires
            old(self).wf(),
        ensures
            final(self).wf(),
            final(self)@ == old(self)@.for_condition(),
            old(self)@.leads_to(final(self)@),
            match exit_jump {
                Some(offset) => offset == old(self)@.for_exit_jump() && offset + 2
                    <= final(self)@.chunk.code.len(),
                None => old(self)@.for_exit_jump() == -1,
            },
        decreases old(self)@.remaining(), 90nat,
    {
        proof {
            reveal(ParserView::match_token);
        }
        if self.match_token(TokenType::Semicolon) {
            return None;
        }
        self.expression();
        self.consume(TokenType::Semicolon, "Expect ';' after loop condition.".as_bytes());
        let exit_jump = self.emit_jump(OpCode::JumpIfFalse);
        self.emit_op(OpCode::Pop);
        Some(exit_jump)
    }

    /// Compiles the increment of a `for`, if there is one, and returns
    /// where the body is to jump back to.
    #[verifier::spinoff_prover]
    fn for_increment(&mut self, loop_start: usize) -> (target: usize)
        requires
            old(self).wf(),
            loop_start <= old(self)@.chunk.code.len(),
        ensures
            final(self).wf(),
            final(self)@ == old(self)@.for_increment(loop_start as int),
            target == old(self)@.for_loop_target(loop_start as int),
            target <= final(self)@.chunk.code.len(),
            old(self)@.leads_to(final(self)@),
        decreases old(self)@.remaining(), 90nat,
    {
        proof {
            reveal(ParserView::match_token);
        }
        if self.match_token(TokenType::RightParen) {
            return loop_start;
        }
        let body_jump = self.emit_jump(OpCode::Jump);
        let increment_start = self.chunk.code.len();
        self.expression();
        self.emit_op(OpCode::Pop);
        self.consume(TokenType::RightParen, "Expect ')' after for clauses.".as_bytes());
        self.emit_loop(loop_start);
        self.patch_jump(body_jump);
        increment_start
    }

    #[verifier::spinoff_prover]
    fn for_body(&mut self, target: usize, exit_jump: Option<usize>)
        requires
            old(self).wf(),
            target <= old(self)@.chunk.code.len(),
            exit_jump matches Some(offset) ==> offset + 2 <= old(self)@.chunk.code.len(),
        ensures
            final(self).wf(),
            final(self)@ == old(self)@.for_body(target as int, jump_or_none(exit_jump)),
            old(self)@.leads_to(final(self)@),
        decreases old(self)@.remaining(), 90nat,
    {
        self.statement();
        self.emit_loop(target);
        if let Some(offset) = exit_jump {
            self.patch_jump(offset);
            self.emit_op(OpCode::Pop);
        }
    }

    #[verifier::spinoff_prover]
    #[verifier::rlimit(40)]
    fn for_tail(&mut self, loop_start: usize, exit_jump: Option<usize>)
        requires
            old(self).wf(),
            loop_start <= old(self)@.chunk.code.len(),
            exit_jump matches Some(offset) ==> offset + 2 <= old(self)@.chunk.code.len(),
        ensures
            final(self).wf(),
            final(self)@ == old(self)@.for_tail(loop_start as int, jump_or_none(exit_jump)),
            old(self)@.leads_to(final(self)@),
        decreases old(self)@.remaining(), 95nat,
    {
        let target = self.for_increment(loop_start);
        self.for_body(target, exit_jump);
    }

    #[verifier::spinoff_prover]
    fn for_loop(&mut self)
        requires
            old(self).wf(),
        ensures
            final(self).wf(),
            final(self)@ == old(self)@.for_loop(),
            old(self)@.leads_to(final(self)@),
        decreases old(self)@.remaining(), 97nat,
    {
        let loop_start = self.chunk.code.len();
        let exit_jump = self.for_condition();
        self.for_tail(loop_start, exit_jump);
    }

    #[verifier::spinoff_prover]
    fn for_statement(&mut self)
        requires
            old(self).wf(),
            old(self).compiler.scope_depth < old(self).current.start,
        ensures
            final(self).wf(),
            final(self)@ == old(self)@.for_statement(),
            old(self)@.leads_to(final(self)@),
        decreases old(self)@.remaining(), 110nat,
    {
        self.begin_scope();
        self.consume(TokenType::LeftParen, "Expect '(' after 'for'.".as_bytes());
        self.for_initializer();
        self.for_loop();
        self.end_scope();
    }

    #[verifier::spinoff_prover]
    fn statement(&mut self)
        requires
            old(self).wf(),
        ensures
            final(self).wf(),
            final(self)@ == old(self)@.statement(),
            old(self)@.leads_to(final(self)@),
            old(self).current.token_type != TokenType::EOF ==> final(self)@.below(old(self)@),
        decreases old(self)@.remaining(), 80nat,
    {
        proof {
            reveal(ParserView::match_token);
        }
        if self.check(TokenType::Print) {
            self.advance();
            self.print_statement();
        } else if self.check(TokenType::If) {
            self.advance();
            self.if_statement();
        } else if self.check(TokenType::While) {
            self.advance();
            self.while_statement();
        } else if self.check(TokenType::For) {
            self.advance();
            self.for_statement();
        } else if self.check(TokenType::LeftBrace) {
            self.advance();
            self.begin_scope();
            self.block();
            self.end_scope();
        } else {
            self.expression_statement();
        }
    }

    #[verifier::spinoff_prover]
    fn declaration(&mut self)
        requires
            old(self).wf(),
        ensures
            final(self).wf(),
            final(self)@ == old(self)@.declaration(),
            old(self)@.leads_to(final(self)@),
            old(self).current.token_type != TokenType::EOF ==> final(self)@.below(old(self)@),
        decreases old(self)@.remaining(), 90nat,
    {
        proof {
            reveal(ParserView::match_token);
        }
        if self.match_token(TokenType::Var) {
            self.var_declaration();
        } else {
            self.statement();
        }
        if self.panic_mode {
            self.synchronize();
        }
    }

    /// Compiles the declarations of the script, up to the end of the
    /// source.
    #[verifier::spinoff_prover]
    pub(crate) fn declarations(&mut self)
        requires
            old(self).wf(),
        ensures
            final(self).wf(),
            final(self)@ == old(self)@.declarations(),
            old(self)@.leads_to(final(self)@),
    {
        while !self.check(TokenType::EOF)
            invariant
                self.wf(),
                old(self)@.leads_to(self@),
                self@.declarations() == old(self)@.declarations(),
            decreases self@.remaining(),
        {
            self.declaration();
        }
        self.advance();
    }
}

/// The empty string has no bytes.
pub proof fn lemma_empty_text()
    ensures
        "".spec_bytes() == Seq::<u8>::empty(),
{
    reveal_strlit("");
    assert("".spec_bytes() =~= Seq::<u8>::empty()) by {
        vstd::string::is_ascii_spec_bytes("");
    }
}

} // verus!
