//! The scanner: a cursor over the bytes of the source that hands out one
//! token at a time.
//!
//! `scan` says which token begins at or after a position and where it ends;
//! `Scanner::scan_token` computes exactly that.

use vstd::prelude::*;
use vstd::string::*;
use vstd::utf8::encode_utf8;
use crate::text::copy_range;

verus! {

/// The longest source that can be scanned. Its last line then has a number
/// that an `i32` holds, were every byte a line feed.
pub const SOURCE_MAX: usize = 0x7fff_fffe;

/// The kinds of token.
#[derive(Debug, Clone, Copy, PartialEq, Eq, Structural)]
pub enum TokenType {
    // Single-character tokens.
    LeftParen,
    RightParen,
    LeftBrace,
    RightBrace,
    Comma,
    Dot,
    Minus,
    Plus,
    Semicolon,
    Slash,
    Star,
    // One or two character tokens.
    Bang,
    BangEqual,
    Equal,
    EqualEqual,
    Greater,
    GreaterEqual,
    Less,
    LessEqual,
    // Literals.
    Identifier,
    String,
    Number,
    // Keywords.
    And,
    Class,
    Else,
    False,
    Fun,
    For,
    If,
    Nil,
    Or,
    Print,
    Return,
    Super,
    This,
    True,
    Var,
    While,
    Error,
    EOF,
}

impl Default for TokenType {
    fn default() -> (r: TokenType)
        ensures
            r == TokenType::EOF,
    {
        TokenType::EOF
    }
}

/// A token: its kind, the bytes of the source it spans, and the line on
/// which it ends.
#[derive(Debug, Clone, Copy, PartialEq, Eq, Structural)]
pub struct Token {
    pub token_type: TokenType,
    pub start: usize,
    pub length: usize,
    pub line: i32,
}

impl Default for Token {
    fn default() -> (r: Token)
        ensures
            r == (Token { token_type: TokenType::EOF, start: 0, length: 0, line: 0 }),
    {
        Token { token_type: TokenType::EOF, start: 0, length: 0, line: 0 }
    }
}

/// `0` to `9`.
pub open spec fn is_digit_byte(c: u8) -> bool {
    48 <= c <= 57
}

/// A letter or `_`.
pub open spec fn is_alpha_byte(c: u8) -> bool {
    (97 <= c <= 122) || (65 <= c <= 90) || c == 95
}

/// The classes of bytes that a token runs over.
#[derive(Debug, Clone, Copy, PartialEq, Eq, Structural)]
pub enum ByteClass {
    /// Letters, digits and `_`.
    Word,
    /// Decimal digits.
    Digit,
    /// Everything but `"`.
    NotQuote,
}

/// Whether a byte belongs to a class.
pub open spec fn in_class(c: u8, class: ByteClass) -> bool {
    match class {
        ByteClass::Word => is_alpha_byte(c) || is_digit_byte(c),
        ByteClass::Digit => is_digit_byte(c),
        ByteClass::NotQuote => c != 34,
    }
}

/// Where the run of bytes of one class that begins at `pos` ends.
pub open spec fn run_end(src: Seq<u8>, pos: int, class: ByteClass) -> int
    decreases src.len() - pos,
{
    if 0 <= pos < src.len() && in_class(src[pos], class) {
        run_end(src, pos + 1, class)
    } else {
        pos
    }
}

/// How many line feeds `src[from..to]` holds.
pub open spec fn newlines(src: Seq<u8>, from: int, to: int) -> int
    decreases to - from,
{
    if from >= to {
        0
    } else {
        newlines(src, from, to - 1) + if src[to - 1] == 10 {
            1int
        } else {
            0int
        }
    }
}

/// The line that position `pos` is on; the first line is 1.
pub open spec fn line_at(src: Seq<u8>, pos: int) -> int {
    1 + newlines(src, 0, pos)
}

/// Where the blanks, line feeds and `//` comments that begin at `pos` end.
/// Inside a comment, everything before the next line feed is skipped.
pub open spec fn skip_end(src: Seq<u8>, pos: int, in_comment: bool) -> int
    decreases src.len() - pos,
{
    if pos < 0 || pos >= src.len() {
        pos
    } else if in_comment {
        skip_end(src, pos + 1, src[pos] != 10)
    } else if src[pos] == 32 || src[pos] == 13 || src[pos] == 9 || src[pos] == 10 {
        skip_end(src, pos + 1, false)
    } else if src[pos] == 47 && pos + 1 < src.len() && src[pos + 1] == 47 {
        skip_end(src, pos + 2, true)
    } else {
        pos
    }
}

/// The kind of a word: one of the keywords, or an identifier.
pub open spec fn keyword_kind(word: Seq<u8>) -> TokenType {
    if word == seq![97u8, 110u8, 100u8] {
        TokenType::And
    } else if word == seq![99u8, 108u8, 97u8, 115u8, 115u8] {
        TokenType::Class
    } else if word == seq![101u8, 108u8, 115u8, 101u8] {
        TokenType::Else
    } else if word == seq![102u8, 97u8, 108u8, 115u8, 101u8] {
        TokenType::False
    } else if word == seq![102u8, 111u8, 114u8] {
        TokenType::For
    } else if word == seq![102u8, 117u8, 110u8] {
        TokenType::Fun
    } else if word == seq![105u8, 102u8] {
        TokenType::If
    } else if word == seq![110u8, 105u8, 108u8] {
        TokenType::Nil
    } else if word == seq![111u8, 114u8] {
        TokenType::Or
    } else if word == seq![112u8, 114u8, 105u8, 110u8, 116u8] {
        TokenType::Print
    } else if word == seq![114u8, 101u8, 116u8, 117u8, 114u8, 110u8] {
        TokenType::Return
    } else if word == seq![115u8, 117u8, 112u8, 101u8, 114u8] {
        TokenType::Super
    } else if word == seq![116u8, 104u8, 105u8, 115u8] {
        TokenType::This
    } else if word == seq![116u8, 114u8, 117u8, 101u8] {
        TokenType::True
    } else if word == seq![118u8, 97u8, 114u8] {
        TokenType::Var
    } else if word == seq![119u8, 104u8, 105u8, 108u8, 101u8] {
        TokenType::While
    } else {
        TokenType::Identifier
    }
}

/// Whether `=` stands at `pos`.
pub open spec fn equals_at(src: Seq<u8>, pos: int) -> bool {
    0 <= pos < src.len() && src[pos] == 61
}

/// Where the digits of a number's fraction end, when a `.` and a digit
/// stand at `pos`; otherwise `pos`.
pub open spec fn fraction_end(src: Seq<u8>, pos: int) -> int {
    if 0 <= pos && pos + 1 < src.len() && src[pos] == 46 && is_digit_byte(src[pos + 1]) {
        run_end(src, pos + 1, ByteClass::Digit)
    } else {
        pos
    }
}

/// Where the token that begins at `start` ends.
pub open spec fn lexeme_end(src: Seq<u8>, start: int) -> int {
    let c = src[start];
    if is_alpha_byte(c) {
        run_end(src, start + 1, ByteClass::Word)
    } else if is_digit_byte(c) {
        fraction_end(src, run_end(src, start + 1, ByteClass::Digit))
    } else if c == 33 || c == 61 || c == 60 || c == 62 {
        if equals_at(src, start + 1) {
            start + 2
        } else {
            start + 1
        }
    } else if c == 34 {
        let close = run_end(src, start + 1, ByteClass::NotQuote);
        if close >= src.len() {
            close
        } else {
            close + 1
        }
    } else {
        start + 1
    }
}

/// The kind of the token that begins at `start`.
pub open spec fn lexeme_kind(src: Seq<u8>, start: int) -> TokenType {
    let c = src[start];
    let two = equals_at(src, start + 1);
    if is_alpha_byte(c) {
        keyword_kind(src.subrange(start, lexeme_end(src, start)))
    } else if is_digit_byte(c) {
        TokenType::Number
    } else if c == 40 {
        TokenType::LeftParen
    } else if c == 41 {
        TokenType::RightParen
    } else if c == 123 {
        TokenType::LeftBrace
    } else if c == 125 {
        TokenType::RightBrace
    } else if c == 59 {
        TokenType::Semicolon
    } else if c == 44 {
        TokenType::Comma
    } else if c == 46 {
        TokenType::Dot
    } else if c == 45 {
        TokenType::Minus
    } else if c == 43 {
        TokenType::Plus
    } else if c == 47 {
        TokenType::Slash
    } else if c == 42 {
        TokenType::Star
    } else if c == 33 {
        if two {
            TokenType::BangEqual
        } else {
            TokenType::Bang
        }
    } else if c == 61 {
        if two {
            TokenType::EqualEqual
        } else {
            TokenType::Equal
        }
    } else if c == 60 {
        if two {
            TokenType::LessEqual
        } else {
            TokenType::Less
        }
    } else if c == 62 {
        if two {
            TokenType::GreaterEqual
        } else {
            TokenType::Greater
        }
    } else if c == 34 {
        if run_end(src, start + 1, ByteClass::NotQuote) >= src.len() {
            TokenType::Error
        } else {
            TokenType::String
        }
    } else {
        TokenType::Error
    }
}

/// What scanning from `current` gives: the next token, and the position
/// behind it. At the end of the source the token is `EOF`, of length 0.
pub open spec fn scan(src: Seq<u8>, current: int) -> (Token, int) {
    let start = skip_end(src, current, false);
    if start >= src.len() {
        (
            Token {
                token_type: TokenType::EOF,
                start: start as usize,
                length: 0,
                line: line_at(src, start) as i32,
            },
            start,
        )
    } else {
        let end = lexeme_end(src, start);
        (
            Token {
                token_type: lexeme_kind(src, start),
                start: start as usize,
                length: (end - start) as usize,
                line: line_at(src, end) as i32,
            },
            end,
        )
    }
}

/// What an error token says: a lexeme that opens a string was never closed,
/// any other is a byte that begins no token.
pub open spec fn error_message(src: Seq<u8>, token: Token) -> Seq<u8> {
    if src[token.start as int] == 34 {
        "Unterminated string.".spec_bytes()
    } else {
        "Unexpected character.".spec_bytes()
    }
}

/// The text of a token: its lexeme, or for an error token its message.
pub open spec fn token_text(src: Seq<u8>, token: Token) -> Seq<u8> {
    if token.token_type == TokenType::Error {
        error_message(src, token)
    } else {
        src.subrange(token.start as int, token.start + token.length)
    }
}

impl Token {
    /// Whether the token lies within a source of `len` bytes; an error token
    /// spans at least the byte that went wrong.
    pub open spec fn within(self, len: nat) -> bool {
        &&& self.start + self.length <= len
        &&& self.token_type == TokenType::Error ==> self.length >= 1
    }

    /// The text of the token: its lexeme in `source`, or its message if it
    /// is an error token.
    pub fn text(&self, source: &[u8]) -> (r: Vec<u8>)
        requires
            self.within(source@.len()),
        ensures
            r@ == token_text(source@, *self),
    {
        let _ = source.len();
        match self.token_type {
            TokenType::Error => {
                if source[self.start] == 34 {
                    "Unterminated string.".as_bytes_vec()
                } else {
                    "Unexpected character.".as_bytes_vec()
                }
            },
            _ => copy_range(source, self.start, self.start + self.length),
        }
    }
}

/// A stretch of source holds no more line feeds than bytes.
pub proof fn lemma_newlines_bound(src: Seq<u8>, from: int, to: int)
    ensures
        0 <= newlines(src, from, to),
        from <= to ==> newlines(src, from, to) <= to - from,
    decreases to - from,
{
    if from < to {
        lemma_newlines_bound(src, from, to - 1);
    }
}

/// A run ends between where it begins and the end of the source.
pub proof fn lemma_run_end_bounds(src: Seq<u8>, pos: int, class: ByteClass)
    requires
        0 <= pos <= src.len(),
    ensures
        pos <= run_end(src, pos, class) <= src.len(),
    decreases src.len() - pos,
{
    if pos < src.len() && in_class(src[pos], class) {
        lemma_run_end_bounds(src, pos + 1, class);
    }
}

/// Skipping ends between where it begins and the end of the source.
pub proof fn lemma_skip_end_bounds(src: Seq<u8>, pos: int, in_comment: bool)
    requires
        0 <= pos <= src.len(),
    ensures
        pos <= skip_end(src, pos, in_comment) <= src.len(),
    decreases src.len() - pos,
{
    if pos < src.len() {
        if in_comment {
            lemma_skip_end_bounds(src, pos + 1, src[pos] != 10);
        } else if src[pos] == 32 || src[pos] == 13 || src[pos] == 9 || src[pos] == 10 {
            lemma_skip_end_bounds(src, pos + 1, false);
        } else if src[pos] == 47 && pos + 1 < src.len() && src[pos + 1] == 47 {
            lemma_skip_end_bounds(src, pos + 2, true);
        }
    }
}

/// Scanning never moves back, stays within the source, and every token but
/// `EOF` is at least one byte long.
pub proof fn lemma_scan_advances(src: Seq<u8>, current: int)
    requires
        0 <= current <= src.len() <= usize::MAX,
    ensures
        ({
            let (token, next) = scan(src, current);
            &&& current <= token.start <= next <= src.len()
            &&& token.start + token.length == next
            &&& token.token_type != TokenType::EOF ==> token.length >= 1
            &&& token.token_type == TokenType::EOF ==> next == src.len()
        }),
{
    lemma_skip_end_bounds(src, current, false);
    let start = skip_end(src, current, false);
    if start < src.len() {
        lemma_run_end_bounds(src, start + 1, ByteClass::Word);
        lemma_run_end_bounds(src, start + 1, ByteClass::Digit);
        lemma_run_end_bounds(src, start + 1, ByteClass::NotQuote);
        let whole = run_end(src, start + 1, ByteClass::Digit);
        if whole + 1 < src.len() {
            lemma_run_end_bounds(src, whole + 1, ByteClass::Digit);
        }
        lemma_keyword_kind(src.subrange(start, lexeme_end(src, start)));
    }
}

/// A word is never an error, the end of the source, or anything but a
/// keyword or an identifier.
pub proof fn lemma_keyword_kind(word: Seq<u8>)
    ensures
        keyword_kind(word) != TokenType::EOF,
        keyword_kind(word) != TokenType::Error,
{
}

/// The cursor: the source, where the token being scanned starts, where
/// the next byte to read stands, and the line that byte is on.
pub struct Scanner {
    pub source: Vec<u8>,
    pub start: usize,
    pub current: usize,
    pub line: i32,
}

/// A scanner at the start of `source`.
pub fn new_scanner(source: String) -> (scanner: Scanner)
    requires
        encode_utf8(source@).len() <= SOURCE_MAX,
    ensures
        scanner.wf(),
        scanner.source@ == encode_utf8(source@),
        scanner.current == 0,
        scanner.start == 0,
{
    Scanner { source: source.as_str().as_bytes_vec(), current: 0, start: 0, line: 1 }
}

/// Whether `c` is a letter or `_`.
pub fn is_alpha(c: u8) -> (r: bool)
    ensures
        r == is_alpha_byte(c),
{
    (c >= 97 && c <= 122) || (c >= 65 && c <= 90) || c == 95
}

/// Whether `c` is a decimal digit.
pub fn is_digit(c: u8) -> (r: bool)
    ensures
        r == is_digit_byte(c),
{
    c >= 48 && c <= 57
}

impl Scanner {
    /// The cursor lies within the source, behind the start of the token
    /// being scanned.
    pub open spec fn in_bounds(&self) -> bool {
        self.start <= self.current <= self.source@.len() <= SOURCE_MAX
    }

    /// In addition the line counter is that of the cursor.
    pub open spec fn wf(&self) -> bool {
        self.in_bounds() && self.line == line_at(self.source@, self.current as int)
    }

    /// Scans the next token.
    pub fn scan_token(&mut self) -> (token: Token)
        requires
            old(self).wf(),
        ensures
            final(self).wf(),
            final(self).source == old(self).source,
            (token, final(self).current as int) == scan(old(self).source@, old(self).current as int),
            final(self).start == token.start,
            token.within(final(self).source@.len()),
    {
        self.skip_whitespace();
        self.start = self.current;
        proof {
            lemma_scan_advances(self.source@, old(self).current as int);
            lemma_newlines_bound(self.source@, 0, self.current as int);
        }
        if self.is_at_end() {
            return self.make_token(TokenType::EOF);
        }
        let c = self.advance();
        if is_alpha(c) {
            return self.identifier();
        }
        if is_digit(c) {
            return self.number();
        }
        if c == 34 {
            return self.string();
        }
        proof {
            lemma_newlines_bound(self.source@, 0, self.current as int);
        }
        if c == 33 || c == 61 || c == 60 || c == 62 {
            let two = self.match_char(61);
            proof {
                lemma_newlines_bound(self.source@, 0, self.current as int);
            }
            let kind = if c == 33 {
                if two {
                    TokenType::BangEqual
                } else {
                    TokenType::Bang
                }
            } else if c == 61 {
                if two {
                    TokenType::EqualEqual
                } else {
                    TokenType::Equal
                }
            } else if c == 60 {
                if two {
                    TokenType::LessEqual
                } else {
                    TokenType::Less
                }
            } else {
                if two {
                    TokenType::GreaterEqual
                } else {
                    TokenType::Greater
                }
            };
            return self.make_token(kind);
        }
        match c {
            40 => self.make_token(TokenType::LeftParen),
            41 => self.make_token(TokenType::RightParen),
            123 => self.make_token(TokenType::LeftBrace),
            125 => self.make_token(TokenType::RightBrace),
            59 => self.make_token(TokenType::Semicolon),
            44 => self.make_token(TokenType::Comma),
            46 => self.make_token(TokenType::Dot),
            45 => self.make_token(TokenType::Minus),
            43 => self.make_token(TokenType::Plus),
            47 => self.make_token(TokenType::Slash),
            42 => self.make_token(TokenType::Star),
            _ => self.error_token(),
        }
    }

    /// Scans the rest of a string literal, the opening quote being read.
    fn string(&mut self) -> (token: Token)
        requires
            old(self).in_bounds(),
            old(self).current == old(self).start + 1,
            old(self).source@[old(self).start as int] == 34,
            old(self).line == line_at(old(self).source@, old(self).start as int),
        ensures
            final(self).wf(),
            final(self).source == old(self).source,
            final(self).start == old(self).start,
            final(self).current == lexeme_end(old(self).source@, old(self).start as int),
            token == (Token {
                token_type: lexeme_kind(old(self).source@, old(self).start as int),
                start: old(self).start,
                length: (final(self).current - old(self).start) as usize,
                line: line_at(old(self).source@, final(self).current as int) as i32,
            }),
    {
        assert(self.line == line_at(self.source@, self.current as int));
        while self.peek() != 34 && !self.is_at_end()
            invariant
                self.wf(),
                self.source == old(self).source,
                self.start == old(self).start,
                self.start < self.current,
                run_end(self.source@, self.current as int, ByteClass::NotQuote) == run_end(
                    self.source@,
                    self.start + 1,
                    ByteClass::NotQuote,
                ),
            decreases self.source@.len() - self.current,
        {
            proof {
                lemma_newlines_bound(self.source@, 0, self.current + 1);
            }
            if self.peek() == 10 {
                self.line += 1;
            }
            self.advance();
        }
        if self.is_at_end() {
            return self.error_token();
        }
        proof {
            lemma_newlines_bound(self.source@, 0, self.current + 1);
        }
        self.advance();
        self.make_token(TokenType::String)
    }

    /// Scans the rest of a word, its first byte being read.
    fn identifier(&mut self) -> (token: Token)
        requires
            old(self).in_bounds(),
            old(self).current == old(self).start + 1,
            is_alpha_byte(old(self).source@[old(self).start as int]),
            old(self).line == line_at(old(self).source@, old(self).start as int),
        ensures
            final(self).wf(),
            final(self).source == old(self).source,
            final(self).start == old(self).start,
            final(self).current == lexeme_end(old(self).source@, old(self).start as int),
            token == (Token {
                token_type: lexeme_kind(old(self).source@, old(self).start as int),
                start: old(self).start,
                length: (final(self).current - old(self).start) as usize,
                line: line_at(old(self).source@, final(self).current as int) as i32,
            }),
    {
        assert(self.line == line_at(self.source@, self.current as int));
        while is_alpha(self.peek()) || is_digit(self.peek())
            invariant
                self.wf(),
                self.source == old(self).source,
                self.start == old(self).start,
                self.start < self.current,
                run_end(self.source@, self.current as int, ByteClass::Word) == run_end(
                    self.source@,
                    self.start + 1,
                    ByteClass::Word,
                ),
            decreases self.source@.len() - self.current,
        {
            self.advance();
        }
        let kind = self.identifier_type();
        self.make_token(kind)
    }

    /// The kind of the word between `start` and `current`.
    fn identifier_type(&self) -> (kind: TokenType)
        requires
            self.in_bounds(),
            self.start < self.current,
        ensures
            kind == keyword_kind(self.source@.subrange(self.start as int, self.current as int)),
    {
        let ghost word = self.source@.subrange(self.start as int, self.current as int);
        let first = self.source[self.start];
        assert(word[0] == first);
        if first == 97 {
            let rest: [u8; 2] = [110, 100];
            let ghost keyword = seq![97u8, 110u8, 100u8];
            self.check_keyword(1, 2, rest.as_slice(), TokenType::And, Ghost(keyword))
        } else if first == 99 {
            let rest: [u8; 4] = [108, 97, 115, 115];
            let ghost keyword = seq![99u8, 108u8, 97u8, 115u8, 115u8];
            self.check_keyword(1, 4, rest.as_slice(), TokenType::Class, Ghost(keyword))
        } else if first == 101 {
            let rest: [u8; 3] = [108, 115, 101];
            let ghost keyword = seq![101u8, 108u8, 115u8, 101u8];
            self.check_keyword(1, 3, rest.as_slice(), TokenType::Else, Ghost(keyword))
        } else if first == 105 {
            let rest: [u8; 1] = [102];
            let ghost keyword = seq![105u8, 102u8];
            self.check_keyword(1, 1, rest.as_slice(), TokenType::If, Ghost(keyword))
        } else if first == 110 {
            let rest: [u8; 2] = [105, 108];
            let ghost keyword = seq![110u8, 105u8, 108u8];
            self.check_keyword(1, 2, rest.as_slice(), TokenType::Nil, Ghost(keyword))
        } else if first == 111 {
            let rest: [u8; 1] = [114];
            let ghost keyword = seq![111u8, 114u8];
            self.check_keyword(1, 1, rest.as_slice(), TokenType::Or, Ghost(keyword))
        } else if first == 112 {
            let rest: [u8; 4] = [114, 105, 110, 116];
            let ghost keyword = seq![112u8, 114u8, 105u8, 110u8, 116u8];
            self.check_keyword(1, 4, rest.as_slice(), TokenType::Print, Ghost(keyword))
        } else if first == 114 {
            let rest: [u8; 5] = [101, 116, 117, 114, 110];
            let ghost keyword = seq![114u8, 101u8, 116u8, 117u8, 114u8, 110u8];
            self.check_keyword(1, 5, rest.as_slice(), TokenType::Return, Ghost(keyword))
        } else if first == 115 {
            let rest: [u8; 4] = [117, 112, 101, 114];
            let ghost keyword = seq![115u8, 117u8, 112u8, 101u8, 114u8];
            self.check_keyword(1, 4, rest.as_slice(), TokenType::Super, Ghost(keyword))
        } else if first == 118 {
            let rest: [u8; 2] = [97, 114];
            let ghost keyword = seq![118u8, 97u8, 114u8];
            self.check_keyword(1, 2, rest.as_slice(), TokenType::Var, Ghost(keyword))
        } else if first == 119 {
            let rest: [u8; 4] = [104, 105, 108, 101];
            let ghost keyword = seq![119u8, 104u8, 105u8, 108u8, 101u8];
            self.check_keyword(1, 4, rest.as_slice(), TokenType::While, Ghost(keyword))
        } else if first == 102 {
            if self.current - self.start <= 1 {
                assert(word.len() == 1);
                return TokenType::Identifier;
            }
            let second = self.source[self.start + 1];
            assert(word[1] == second);
            if second == 97 {
                let rest: [u8; 3] = [108, 115, 101];
                let ghost keyword = seq![102u8, 97u8, 108u8, 115u8, 101u8];
                self.check_keyword(2, 3, rest.as_slice(), TokenType::False, Ghost(keyword))
            } else if second == 111 {
                let rest: [u8; 1] = [114];
                let ghost keyword = seq![102u8, 111u8, 114u8];
                self.check_keyword(2, 1, rest.as_slice(), TokenType::For, Ghost(keyword))
            } else if second == 117 {
                let rest: [u8; 1] = [110];
                let ghost keyword = seq![102u8, 117u8, 110u8];
                self.check_keyword(2, 1, rest.as_slice(), TokenType::Fun, Ghost(keyword))
            } else {
                TokenType::Identifier
            }
        } else if first == 116 {
            if self.current - self.start <= 1 {
                assert(word.len() == 1);
                return TokenType::Identifier;
            }
            let second = self.source[self.start + 1];
            assert(word[1] == second);
            if second == 104 {
                let rest: [u8; 2] = [105, 115];
                let ghost keyword = seq![116u8, 104u8, 105u8, 115u8];
                self.check_keyword(2, 2, rest.as_slice(), TokenType::This, Ghost(keyword))
            } else if second == 114 {
                let rest: [u8; 2] = [117, 101];
                let ghost keyword = seq![116u8, 114u8, 117u8, 101u8];
                self.check_keyword(2, 2, rest.as_slice(), TokenType::True, Ghost(keyword))
            } else {
                TokenType::Identifier
            }
        } else {
            TokenType::Identifier
        }
    }

    /// `token_type` if the word is `length` bytes longer than `start` and
    /// goes on with `rest` from there; an identifier otherwise. `keyword`
    /// is the whole keyword, whose first `start` bytes the word is known to
    /// begin with.
    fn check_keyword(
        &self,
        start: usize,
        length: usize,
        rest: &[u8],
        token_type: TokenType,
        Ghost(keyword): Ghost<Seq<u8>>,
    ) -> (kind: TokenType)
        requires
            self.in_bounds(),
            rest@.len() == length,
            start + length <= 8,
            keyword.len() == start + length,
            keyword.subrange(start as int, start + length) =~= rest@,
            self.current - self.start >= start,
            forall|k: int| 0 <= k < start ==> self.source@[self.start + k] == keyword[k],
        ensures
            kind == (if self.source@.subrange(self.start as int, self.current as int) == keyword {
                token_type
            } else {
                TokenType::Identifier
            }),
    {
        let ghost word = self.source@.subrange(self.start as int, self.current as int);
        if self.current - self.start != start + length {
            return TokenType::Identifier;
        }
        let from = self.start + start;
        let mut i: usize = 0;
        while i < length
            invariant
                self.in_bounds(),
                rest@.len() == length,
                from == self.start + start,
                from + length == self.current,
                i <= length,
                keyword.len() == start + length,
                keyword.subrange(start as int, start + length) =~= rest@,
                word == self.source@.subrange(self.start as int, self.current as int),
                forall|k: int| 0 <= k < i ==> self.source@[from + k] == rest@[k],
            decreases length - i,
        {
            if self.source[from + i] != rest[i] {
                assert(word[start + i] != keyword.subrange(start as int, start + length)[i as int]);
                return TokenType::Identifier;
            }
            i += 1;
        }
        assert forall|k: int| 0 <= k < word.len() implies word[k] == keyword[k] by {
            if k >= start {
                assert(self.source@[from + (k - start)] == rest@[k - start]);
                assert(keyword.subrange(start as int, start + length)[k - start] == keyword[k]);
            }
        }
        assert(word =~= keyword);
        token_type
    }

    /// Scans the rest of a number, its first digit being read.
    fn number(&mut self) -> (token: Token)
        requires
            old(self).in_bounds(),
            old(self).current == old(self).start + 1,
            is_digit_byte(old(self).source@[old(self).start as int]),
            old(self).line == line_at(old(self).source@, old(self).start as int),
        ensures
            final(self).wf(),
            final(self).source == old(self).source,
            final(self).start == old(self).start,
            final(self).current == lexeme_end(old(self).source@, old(self).start as int),
            token == (Token {
                token_type: lexeme_kind(old(self).source@, old(self).start as int),
                start: old(self).start,
                length: (final(self).current - old(self).start) as usize,
                line: line_at(old(self).source@, final(self).current as int) as i32,
            }),
    {
        assert(self.line == line_at(self.source@, self.current as int));
        while is_digit(self.peek())
            invariant
                self.wf(),
                self.source == old(self).source,
                self.start == old(self).start,
                self.start < self.current,
                run_end(self.source@, self.current as int, ByteClass::Digit) == run_end(
                    self.source@,
                    self.start + 1,
                    ByteClass::Digit,
                ),
            decreases self.source@.len() - self.current,
        {
            self.advance();
        }
        if self.peek() == 46 && is_digit(self.peek_next()) {
            let ghost dot = self.current;
            self.advance();
            while is_digit(self.peek())
                invariant
                    self.wf(),
                    self.source == old(self).source,
                    self.start == old(self).start,
                    self.start < self.current,
                    run_end(self.source@, self.current as int, ByteClass::Digit) == run_end(
                        self.source@,
                        dot + 1,
                        ByteClass::Digit,
                    ),
                decreases self.source@.len() - self.current,
            {
                self.advance();
            }
        }
        self.make_token(TokenType::Number)
    }

    /// Reads the byte under the cursor and moves past it. The line counter
    /// is the caller's to keep.
    fn advance(&mut self) -> (c: u8)
        requires
            old(self).in_bounds(),
            old(self).current < old(self).source@.len(),
        ensures
            final(self).in_bounds(),
            final(self).source == old(self).source,
            final(self).start == old(self).start,
            final(self).line == old(self).line,
            final(self).current == old(self).current + 1,
            c == old(self).source@[old(self).current as int],
            c != 10 ==> line_at(final(self).source@, final(self).current as int) == line_at(
                old(self).source@,
                old(self).current as int,
            ),
            c == 10 ==> line_at(final(self).source@, final(self).current as int) == line_at(
                old(self).source@,
                old(self).current as int,
            ) + 1,
    {
        self.current += 1;
        self.source[self.current - 1]
    }

    /// Moves past blanks, line feeds and comments.
    fn skip_whitespace(&mut self)
        requires
            old(self).wf(),
        ensures
            final(self).wf(),
            final(self).source == old(self).source,
            final(self).start == old(self).start,
            final(self).current == skip_end(old(self).source@, old(self).current as int, false),
            final(self).current < old(self).source@.len() ==> old(self).source@[final(self).current as int]
                != 10,
    {
        loop
            invariant
                self.wf(),
                self.source == old(self).source,
                self.start == old(self).start,
                skip_end(self.source@, self.current as int, false) == skip_end(
                    old(self).source@,
                    old(self).current as int,
                    false,
                ),
            decreases self.source@.len() - self.current,
        {
            let c = self.peek();
            if self.is_at_end() {
                return;
            }
            if c == 32 || c == 13 || c == 9 {
                self.advance();
            } else if c == 10 {
                proof {
                    lemma_newlines_bound(self.source@, 0, self.current + 1);
                }
                self.line += 1;
                self.advance();
            } else if c == 47 {
                if self.peek_next() == 47 {
                    assert(skip_end(self.source@, self.current as int, true) == skip_end(
                        self.source@,
                        self.current + 2,
                        true,
                    )) by {
                        assert(skip_end(self.source@, self.current + 1, true) == skip_end(
                            self.source@,
                            self.current + 2,
                            true,
                        ));
                    }
                    let ghost slash = self.current;
                    while self.peek() != 10 && !self.is_at_end()
                        invariant
                            self.wf(),
                            self.source == old(self).source,
                            self.start == old(self).start,
                            slash <= self.current,
                            slash < self.source@.len(),
                            self.source@[slash as int] == 47,
                            skip_end(self.source@, self.current as int, true) == skip_end(
                                old(self).source@,
                                old(self).current as int,
                                false,
                            ),
                        decreases self.source@.len() - self.current,
                    {
                        self.advance();
                    }
                    assert(self.current > slash);
                } else {
                    return;
                }
            } else {
                return;
            }
        }
    }

    /// Moves past the byte under the cursor if it is `expected`.
    fn match_char(&mut self, expected: u8) -> (matched: bool)
        requires
            old(self).in_bounds(),
            expected != 10,
        ensures
            final(self).in_bounds(),
            final(self).source == old(self).source,
            final(self).start == old(self).start,
            final(self).line == old(self).line,
            matched == (old(self).current < old(self).source@.len() && old(self).source@[old(
                self,
            ).current as int] == expected),
            final(self).current == (if matched {
                old(self).current + 1
            } else {
                old(self).current as int
            }),
            line_at(final(self).source@, final(self).current as int) == line_at(
                old(self).source@,
                old(self).current as int,
            ),
    {
        if self.is_at_end() {
            return false;
        }
        if self.source[self.current] != expected {
            return false;
        }
        self.current += 1;
        true
    }

    /// The byte under the cursor, or 0 at the end of the source.
    fn peek(&self) -> (c: u8)
        requires
            self.in_bounds(),
        ensures
            c == (if self.current < self.source@.len() {
                self.source@[self.current as int]
            } else {
                0
            }),
    {
        if self.is_at_end() {
            return 0;
        }
        self.source[self.current]
    }

    /// The byte behind the one under the cursor, or 0 where there is none.
    fn peek_next(&self) -> (c: u8)
        requires
            self.in_bounds(),
        ensures
            c == (if self.current + 1 < self.source@.len() {
                self.source@[self.current + 1]
            } else {
                0
            }),
    {
        if self.current + 1 >= self.source.len() {
            return 0;
        }
        self.source[self.current + 1]
    }

    fn is_at_end(&self) -> (r: bool)
        ensures
            r == (self.current >= self.source@.len()),
    {
        self.current >= self.source.len()
    }

    /// The token between `start` and the cursor.
    fn make_token(&self, token_type: TokenType) -> (token: Token)
        requires
            self.in_bounds(),
        ensures
            token == (Token {
                token_type,
                start: self.start,
                length: (self.current - self.start) as usize,
                line: self.line,
            }),
    {
        Token {
            token_type,
            start: self.start,
            length: self.current - self.start,
            line: self.line,
        }
    }

    /// The error token between `start` and the cursor.
    fn error_token(&self) -> (token: Token)
        requires
            self.in_bounds(),
        ensures
            token == (Token {
                token_type: TokenType::Error,
                start: self.start,
                length: (self.current - self.start) as usize,
                line: self.line,
            }),
    {
        self.make_token(TokenType::Error)
    }
}

} // verus!
