//! The compiler: a single pass over the tokens that emits bytecode as it
//! parses.
//!
//! `model` holds the state of the pass and says what each production does
//! to it; `parser` holds the pass itself, whose functions compute exactly
//! that. A number literal's value is not computed here: the caller hands in
//! the doubles of the source's number tokens, in order.

pub mod model;
pub mod parser;

use vstd::prelude::*;
use vstd::utf8::encode_utf8;
use crate::chunk::Chunk;
use crate::compiler::model::ParserView;
use crate::compiler::model::lexeme;
use crate::compiler::parser::Parser;
use crate::object::ObjArray;
use crate::scanner::Token;
use crate::scanner::TokenType;
use crate::scanner::SOURCE_MAX;
use crate::scanner::lemma_scan_advances;
use crate::scanner::new_scanner;
use crate::scanner::scan;
use crate::text::copy_range;

verus! {

/// The most locals that one function can have, the slot of the function
/// itself among them.
pub const LOCALS_MAX: usize = 256;

/// The binding strength of operators, from the loosest.
#[derive(Debug, Clone, Copy, PartialEq, Eq, Structural)]
pub enum Precedence {
    Lowest,
    Assignment,
    Or,
    And,
    Equality,
    Comparison,
    Term,
    Factor,
    Unary,
    Call,
    Primary,
}

/// The place of a precedence on the ladder.
pub open spec fn level(p: Precedence) -> int {
    match p {
        Precedence::Lowest => 0,
        Precedence::Assignment => 1,
        Precedence::Or => 2,
        Precedence::And => 3,
        Precedence::Equality => 4,
        Precedence::Comparison => 5,
        Precedence::Term => 6,
        Precedence::Factor => 7,
        Precedence::Unary => 8,
        Precedence::Call => 9,
        Precedence::Primary => 10,
    }
}

/// The next tighter precedence; `Primary` is the tightest.
pub open spec fn tighter(p: Precedence) -> Precedence {
    match p {
        Precedence::Lowest => Precedence::Assignment,
        Precedence::Assignment => Precedence::Or,
        Precedence::Or => Precedence::And,
        Precedence::And => Precedence::Equality,
        Precedence::Equality => Precedence::Comparison,
        Precedence::Comparison => Precedence::Term,
        Precedence::Term => Precedence::Factor,
        Precedence::Factor => Precedence::Unary,
        Precedence::Unary => Precedence::Call,
        Precedence::Call => Precedence::Primary,
        Precedence::Primary => Precedence::Primary,
    }
}

impl Precedence {
    /// The place of this precedence on the ladder.
    pub fn to_level(self) -> (r: u8)
        ensures
            r == level(self),
    {
        match self {
            Precedence::Lowest => 0,
            Precedence::Assignment => 1,
            Precedence::Or => 2,
            Precedence::And => 3,
            Precedence::Equality => 4,
            Precedence::Comparison => 5,
            Precedence::Term => 6,
            Precedence::Factor => 7,
            Precedence::Unary => 8,
            Precedence::Call => 9,
            Precedence::Primary => 10,
        }
    }

    /// The next tighter precedence.
    pub fn next(self) -> (r: Precedence)
        ensures
            r == tighter(self),
    {
        match self {
            Precedence::Lowest => Precedence::Assignment,
            Precedence::Assignment => Precedence::Or,
            Precedence::Or => Precedence::And,
            Precedence::And => Precedence::Equality,
            Precedence::Equality => Precedence::Comparison,
            Precedence::Comparison => Precedence::Term,
            Precedence::Term => Precedence::Factor,
            Precedence::Factor => Precedence::Unary,
            Precedence::Unary => Precedence::Call,
            Precedence::Call => Precedence::Primary,
            Precedence::Primary => Precedence::Primary,
        }
    }
}

/// The productions that a token can begin or continue.
#[derive(Debug, Clone, Copy, PartialEq, Eq, Structural)]
pub enum ParseFn {
    Grouping,
    Unary,
    Binary,
    Variable,
    String,
    Number,
    Literal,
    And,
    Or,
}

/// What a token means to the expression parser: the production it begins,
/// the production it continues, and how tightly it binds as an operator.
#[derive(Debug, Clone, Copy, PartialEq, Eq, Structural)]
pub struct ParseRule {
    pub prefix: Option<ParseFn>,
    pub infix: Option<ParseFn>,
    pub precedence: Precedence,
}

impl ParseRule {
    pub fn new(prefix: Option<ParseFn>, infix: Option<ParseFn>, precedence: Precedence) -> (r:
        ParseRule)
        ensures
            r == (ParseRule { prefix, infix, precedence }),
    {
        ParseRule { prefix, infix, precedence }
    }
}

/// How many kinds of token there are.
pub const TOKEN_COUNT: usize = 40;

/// The place of a token kind in the rule table.
pub open spec fn token_index(t: TokenType) -> int {
    match t {
        TokenType::LeftParen => 0,
        TokenType::RightParen => 1,
        TokenType::LeftBrace => 2,
        TokenType::RightBrace => 3,
        TokenType::Comma => 4,
        TokenType::Dot => 5,
        TokenType::Minus => 6,
        TokenType::Plus => 7,
        TokenType::Semicolon => 8,
        TokenType::Slash => 9,
        TokenType::Star => 10,
        TokenType::Bang => 11,
        TokenType::BangEqual => 12,
        TokenType::Equal => 13,
        TokenType::EqualEqual => 14,
        TokenType::Greater => 15,
        TokenType::GreaterEqual => 16,
        TokenType::Less => 17,
        TokenType::LessEqual => 18,
        TokenType::Identifier => 19,
        TokenType::String => 20,
        TokenType::Number => 21,
        TokenType::And => 22,
        TokenType::Class => 23,
        TokenType::Else => 24,
        TokenType::False => 25,
        TokenType::Fun => 26,
        TokenType::For => 27,
        TokenType::If => 28,
        TokenType::Nil => 29,
        TokenType::Or => 30,
        TokenType::Print => 31,
        TokenType::Return => 32,
        TokenType::Super => 33,
        TokenType::This => 34,
        TokenType::True => 35,
        TokenType::Var => 36,
        TokenType::While => 37,
        TokenType::Error => 38,
        TokenType::EOF => 39,
    }
}

/// The place of a token kind in the rule table.
pub fn index_of(t: TokenType) -> (r: usize)
    ensures
        r == token_index(t),
        r < TOKEN_COUNT,
{
    match t {
        TokenType::LeftParen => 0,
        TokenType::RightParen => 1,
        TokenType::LeftBrace => 2,
        TokenType::RightBrace => 3,
        TokenType::Comma => 4,
        TokenType::Dot => 5,
        TokenType::Minus => 6,
        TokenType::Plus => 7,
        TokenType::Semicolon => 8,
        TokenType::Slash => 9,
        TokenType::Star => 10,
        TokenType::Bang => 11,
        TokenType::BangEqual => 12,
        TokenType::Equal => 13,
        TokenType::EqualEqual => 14,
        TokenType::Greater => 15,
        TokenType::GreaterEqual => 16,
        TokenType::Less => 17,
        TokenType::LessEqual => 18,
        TokenType::Identifier => 19,
        TokenType::String => 20,
        TokenType::Number => 21,
        TokenType::And => 22,
        TokenType::Class => 23,
        TokenType::Else => 24,
        TokenType::False => 25,
        TokenType::Fun => 26,
        TokenType::For => 27,
        TokenType::If => 28,
        TokenType::Nil => 29,
        TokenType::Or => 30,
        TokenType::Print => 31,
        TokenType::Return => 32,
        TokenType::Super => 33,
        TokenType::This => 34,
        TokenType::True => 35,
        TokenType::Var => 36,
        TokenType::While => 37,
        TokenType::Error => 38,
        TokenType::EOF => 39,
    }
}

/// The rule of each token kind.
pub open spec fn rule_of(t: TokenType) -> ParseRule {
    match t {
        TokenType::LeftParen => ParseRule {
            prefix: Some(ParseFn::Grouping),
            infix: None,
            precedence: Precedence::Lowest,
        },
        TokenType::Minus => ParseRule {
            prefix: Some(ParseFn::Unary),
            infix: Some(ParseFn::Binary),
            precedence: Precedence::Term,
        },
        TokenType::Plus => ParseRule {
            prefix: None,
            infix: Some(ParseFn::Binary),
            precedence: Precedence::Term,
        },
        TokenType::Slash | TokenType::Star => ParseRule {
            prefix: None,
            infix: Some(ParseFn::Binary),
            precedence: Precedence::Factor,
        },
        TokenType::Bang => ParseRule {
            prefix: Some(ParseFn::Unary),
            infix: None,
            precedence: Precedence::Lowest,
        },
        TokenType::BangEqual | TokenType::EqualEqual => ParseRule {
            prefix: None,
            infix: Some(ParseFn::Binary),
            precedence: Precedence::Equality,
        },
        TokenType::Greater | TokenType::GreaterEqual | TokenType::Less | TokenType::LessEqual
            => ParseRule {
            prefix: None,
            infix: Some(ParseFn::Binary),
            precedence: Precedence::Comparison,
        },
        TokenType::Identifier => ParseRule {
            prefix: Some(ParseFn::Variable),
            infix: None,
            precedence: Precedence::Lowest,
        },
        TokenType::String => ParseRule {
            prefix: Some(ParseFn::String),
            infix: None,
            precedence: Precedence::Lowest,
        },
        TokenType::Number => ParseRule {
            prefix: Some(ParseFn::Number),
            infix: None,
            precedence: Precedence::Lowest,
        },
        TokenType::And => ParseRule {
            prefix: None,
            infix: Some(ParseFn::And),
            precedence: Precedence::And,
        },
        TokenType::Or => ParseRule {
            prefix: None,
            infix: Some(ParseFn::Or),
            precedence: Precedence::Or,
        },
        TokenType::False | TokenType::Nil | TokenType::True => ParseRule {
            prefix: Some(ParseFn::Literal),
            infix: None,
            precedence: Precedence::Lowest,
        },
        _ => ParseRule { prefix: None, infix: None, precedence: Precedence::Lowest },
    }
}

/// The rule table: one rule for each token kind, at the kind's index.
pub fn rules_table() -> (table: Vec<ParseRule>)
    ensures
        table@.len() == TOKEN_COUNT,
        forall|t: TokenType| #[trigger] table@[token_index(t)] == rule_of(t),
{
    let none = ParseRule::new(None, None, Precedence::Lowest);
    let mut table: Vec<ParseRule> = Vec::new();
    let mut i: usize = 0;
    while i < TOKEN_COUNT
        invariant
            i <= TOKEN_COUNT,
            table@.len() == i,
            forall|k: int| 0 <= k < i ==> table@[k] == none,
            none == (ParseRule { prefix: None, infix: None, precedence: Precedence::Lowest }),
        decreases TOKEN_COUNT - i,
    {
        table.push(none);
        i += 1;
    }
    table.set(
        index_of(TokenType::LeftParen),
        ParseRule::new(Some(ParseFn::Grouping), None, Precedence::Lowest),
    );
    table.set(
        index_of(TokenType::Minus),
        ParseRule::new(Some(ParseFn::Unary), Some(ParseFn::Binary), Precedence::Term),
    );
    table.set(
        index_of(TokenType::Plus),
        ParseRule::new(None, Some(ParseFn::Binary), Precedence::Term),
    );
    table.set(
        index_of(TokenType::Slash),
        ParseRule::new(None, Some(ParseFn::Binary), Precedence::Factor),
    );
    table.set(
        index_of(TokenType::Star),
        ParseRule::new(None, Some(ParseFn::Binary), Precedence::Factor),
    );
    table.set(
        index_of(TokenType::Bang),
        ParseRule::new(Some(ParseFn::Unary), None, Precedence::Lowest),
    );
    table.set(
        index_of(TokenType::BangEqual),
        ParseRule::new(None, Some(ParseFn::Binary), Precedence::Equality),
    );
    table.set(
        index_of(TokenType::EqualEqual),
        ParseRule::new(None, Some(ParseFn::Binary), Precedence::Equality),
    );
    table.set(
        index_of(TokenType::Greater),
        ParseRule::new(None, Some(ParseFn::Binary), Precedence::Comparison),
    );
    table.set(
        index_of(TokenType::GreaterEqual),
        ParseRule::new(None, Some(ParseFn::Binary), Precedence::Comparison),
    );
    table.set(
        index_of(TokenType::Less),
        ParseRule::new(None, Some(ParseFn::Binary), Precedence::Comparison),
    );
    table.set(
        index_of(TokenType::LessEqual),
        ParseRule::new(None, Some(ParseFn::Binary), Precedence::Comparison),
    );
    table.set(
        index_of(TokenType::Identifier),
        ParseRule::new(Some(ParseFn::Variable), None, Precedence::Lowest),
    );
    table.set(
        index_of(TokenType::String),
        ParseRule::new(Some(ParseFn::String), None, Precedence::Lowest),
    );
    table.set(
        index_of(TokenType::Number),
        ParseRule::new(Some(ParseFn::Number), None, Precedence::Lowest),
    );
    table.set(index_of(TokenType::And), ParseRule::new(None, Some(ParseFn::And), Precedence::And));
    table.set(
        index_of(TokenType::False),
        ParseRule::new(Some(ParseFn::Literal), None, Precedence::Lowest),
    );
    table.set(
        index_of(TokenType::Nil),
        ParseRule::new(Some(ParseFn::Literal), None, Precedence::Lowest),
    );
    table.set(index_of(TokenType::Or), ParseRule::new(None, Some(ParseFn::Or), Precedence::Or));
    table.set(
        index_of(TokenType::True),
        ParseRule::new(Some(ParseFn::Literal), None, Precedence::Lowest),
    );
    assert forall|t: TokenType| #[trigger] table@[token_index(t)] == rule_of(t) by {
        assert(0 <= token_index(t) < 40);
    }
    table
}

/// A local variable: the token that names it, and the depth of the scope
/// that declared it, or -1 while its initializer is being compiled.
#[derive(Debug, Clone, Copy, PartialEq, Eq, Structural)]
pub struct Local {
    pub name: Token,
    pub depth: i32,
}

/// What the pass knows of the function it is compiling: its locals, in the
/// order of their stack slots, and how deeply nested the current scope is.
pub struct Compiler {
    pub locals: Vec<Local>,
    pub scope_depth: i32,
}

/// The number tokens that scanning from `pos` meets, in order.
pub open spec fn number_tokens(src: Seq<u8>, pos: int) -> Seq<Token>
    decreases src.len() - pos,
{
    let (token, next) = scan(src, pos);
    if token.token_type == TokenType::EOF || next <= pos || next > src.len() {
        Seq::<Token>::empty()
    } else if token.token_type == TokenType::Number {
        seq![token] + number_tokens(src, next)
    } else {
        number_tokens(src, next)
    }
}

/// Compiles `source` into `chunk`. Strings and names are interned in
/// `obj_array`, and what the compiler reports is appended to `diagnostics`.
/// `literals` holds the doubles of the source's number tokens, in order.
/// Returns whether the source compiled without an error.
pub fn compile(
    source: String,
    literals: Vec<u64>,
    chunk: &mut Chunk,
    obj_array: &mut ObjArray,
    diagnostics: &mut Vec<u8>,
) -> (compiled: bool)
    requires
        encode_utf8(source@).len() <= SOURCE_MAX,
        literals@.len() == number_tokens(encode_utf8(source@), 0).len(),
        old(chunk).wf(),
        old(obj_array).wf(),
    ensures
        final(chunk).wf(),
        final(obj_array).wf(),
        ({
            let end = ParserView::start(
                encode_utf8(source@),
                literals@,
                old(chunk)@,
                old(obj_array)@,
                old(diagnostics)@,
            ).compile();
            &&& final(chunk)@ == end.chunk
            &&& final(obj_array)@ == end.heap
            &&& final(diagnostics)@ == end.diagnostics
            &&& compiled == !end.had_error
        }),
{
    let mut locals: Vec<Local> = Vec::new();
    locals.push(Local { name: Token::default(), depth: 0 });
    let mut parser = Parser {
        compiler: Compiler { locals, scope_depth: 0 },
        rules: rules_table(),
        scanner: new_scanner(source),
        obj_array: ObjArray::default(),
        chunk: Chunk::default(),
        literals,
        cursor: 0,
        current: Token::default(),
        current_number: 0,
        previous: Token::default(),
        previous_number: 0,
        had_error: false,
        panic_mode: false,
        diagnostics: Vec::new(),
    };
    core::mem::swap(chunk, &mut parser.chunk);
    core::mem::swap(obj_array, &mut parser.obj_array);
    core::mem::swap(diagnostics, &mut parser.diagnostics);
    assert(parser@ =~= ParserView::start(
        encode_utf8(source@),
        literals@,
        old(chunk)@,
        old(obj_array)@,
        old(diagnostics)@,
    ));
    parser.advance();
    parser.declarations();
    parser.end_compiler();
    core::mem::swap(chunk, &mut parser.chunk);
    core::mem::swap(obj_array, &mut parser.obj_array);
    core::mem::swap(diagnostics, &mut parser.diagnostics);
    !parser.had_error
}

/// The text of each number token of `source`, in order: what the caller of
/// `compile` turns into doubles.
pub fn number_literals(source: String) -> (lexemes: Vec<Vec<u8>>)
    requires
        encode_utf8(source@).len() <= SOURCE_MAX,
    ensures
        lexemes@.len() == number_tokens(encode_utf8(source@), 0).len(),
        forall|i: int|
            0 <= i < lexemes@.len() ==> (#[trigger] lexemes@[i])@ == lexeme(
                encode_utf8(source@),
                number_tokens(encode_utf8(source@), 0)[i],
            ),
{
    let mut scanner = new_scanner(source);
    let mut lexemes: Vec<Vec<u8>> = Vec::new();
    let ghost src = scanner.source@;
    let ghost mut seen: Seq<Token> = Seq::empty();
    let mut done = false;
    while !done
        invariant
            scanner.wf(),
            scanner.source@ == src,
            number_tokens(src, 0) == seen + (if done {
                Seq::<Token>::empty()
            } else {
                number_tokens(src, scanner.current as int)
            }),
            lexemes@.len() == seen.len(),
            forall|i: int| 0 <= i < lexemes@.len() ==> (#[trigger] lexemes@[i])@ == lexeme(src, seen[i]),
        decreases
                (if done {
                    0
                } else {
                    src.len() - scanner.current + 1
                }),
    {
        proof {
            lemma_scan_advances(src, scanner.current as int);
        }
        let ghost position = scanner.current as int;
        let token = scanner.scan_token();
        match token.token_type {
            TokenType::EOF => {
                done = true;
                assert(number_tokens(src, position) == Seq::<Token>::empty());
                assert(seen + Seq::<Token>::empty() =~= seen);
            },
            TokenType::Number => {
                let text = copy_range(
                    scanner.source.as_slice(),
                    token.start,
                    token.start + token.length,
                );
                lexemes.push(text);
                proof {
                    assert(number_tokens(src, position) == seq![token] + number_tokens(
                        src,
                        scanner.current as int,
                    ));
                    assert(seen + (seq![token] + number_tokens(src, scanner.current as int))
                        =~= seen.push(token) + number_tokens(src, scanner.current as int));
                    seen = seen.push(token);
                }
            },
            _ => {},
        }
    }
    assert(seen + Seq::<Token>::empty() =~= seen);
    lexemes
}

/// Compiling is deterministic: what it leaves behind is a function of the
/// source, the number table, and what the chunk, the heap and the
/// diagnostics held before. Two runs on equal arguments agree byte for
/// byte.
pub proof fn lemma_compile_is_deterministic(
    source: Seq<u8>,
    literals: Seq<u64>,
    first: ParserView,
    second: ParserView,
)
    requires
        first == ParserView::start(
            source,
            literals,
            first.chunk,
            first.heap,
            first.diagnostics,
        ),
        second == ParserView::start(
            source,
            literals,
            second.chunk,
            second.heap,
            second.diagnostics,
        ),
        first.chunk == second.chunk,
        first.heap == second.heap,
        first.diagnostics == second.diagnostics,
    ensures
        first.compile().chunk.code == second.compile().chunk.code,
        first.compile().chunk == second.compile().chunk,
        first.compile().heap == second.compile().heap,
        first.compile().diagnostics == second.compile().diagnostics,
        first.compile().had_error == second.compile().had_error,
{
}

} // verus!
