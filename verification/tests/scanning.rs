use rustlox::scanner::is_alpha;
use rustlox::scanner::is_digit;
use rustlox::scanner::new_scanner;
use rustlox::scanner::Token;
use rustlox::scanner::TokenType;

fn tokens(source: &str) -> Vec<Token> {
    let mut scanner = new_scanner(source.to_string());
    let mut out = Vec::new();
    loop {
        let token = scanner.scan_token();
        out.push(token);
        if token.token_type == TokenType::EOF {
            return out;
        }
        assert!(out.len() <= source.len() + 1);
    }
}

fn kinds(source: &str) -> Vec<TokenType> {
    tokens(source).iter().map(|t| t.token_type).collect()
}

fn texts(source: &str) -> Vec<String> {
    tokens(source)
        .iter()
        .map(|t| String::from_utf8(t.text(source.as_bytes())).unwrap())
        .collect()
}

#[test]
fn empty_source_is_eof() {
    let all = tokens("");
    assert_eq!(all, vec![Token { token_type: TokenType::EOF, start: 0, length: 0, line: 1 }]);
}

#[test]
fn eof_repeats() {
    let mut scanner = new_scanner("x".to_string());
    assert_eq!(scanner.scan_token().token_type, TokenType::Identifier);
    assert_eq!(scanner.scan_token().token_type, TokenType::EOF);
    assert_eq!(scanner.scan_token().token_type, TokenType::EOF);
}

#[test]
fn punctuation() {
    assert_eq!(
        kinds("( ) { } , . ; - + / *"),
        vec![
            TokenType::LeftParen,
            TokenType::RightParen,
            TokenType::LeftBrace,
            TokenType::RightBrace,
            TokenType::Comma,
            TokenType::Dot,
            TokenType::Semicolon,
            TokenType::Minus,
            TokenType::Plus,
            TokenType::Slash,
            TokenType::Star,
            TokenType::EOF,
        ]
    );
}

#[test]
fn one_and_two_character_operators() {
    assert_eq!(
        kinds("! != = == < <= > >="),
        vec![
            TokenType::Bang,
            TokenType::BangEqual,
            TokenType::Equal,
            TokenType::EqualEqual,
            TokenType::Less,
            TokenType::LessEqual,
            TokenType::Greater,
            TokenType::GreaterEqual,
            TokenType::EOF,
        ]
    );
    assert_eq!(
        kinds("!==<=>"),
        vec![
            TokenType::BangEqual,
            TokenType::Equal,
            TokenType::LessEqual,
            TokenType::Greater,
            TokenType::EOF
        ]
    );
}

#[test]
fn every_keyword() {
    assert_eq!(
        kinds("and class else false for fun if nil or print return super this true var while"),
        vec![
            TokenType::And,
            TokenType::Class,
            TokenType::Else,
            TokenType::False,
            TokenType::For,
            TokenType::Fun,
            TokenType::If,
            TokenType::Nil,
            TokenType::Or,
            TokenType::Print,
            TokenType::Return,
            TokenType::Super,
            TokenType::This,
            TokenType::True,
            TokenType::Var,
            TokenType::While,
            TokenType::EOF,
        ]
    );
}

#[test]
fn near_keywords_are_identifiers() {
    let source = "an andy f t fo fals falsey tru thi th classy _if If whil while0 nill o r";
    let all = kinds(source);
    assert_eq!(all.len(), 19);
    for kind in &all[..18] {
        assert_eq!(*kind, TokenType::Identifier);
    }
    assert_eq!(all[18], TokenType::EOF);
}

#[test]
fn identifiers_take_letters_digits_and_underscores() {
    assert_eq!(texts("_a1 b_2c Zz9"), vec!["_a1", "b_2c", "Zz9", ""]);
}

#[test]
fn numbers() {
    assert_eq!(texts("12 3.5 7. .5 1.2.3"), vec!["12", "3.5", "7", ".", ".", "5", "1.2", ".", "3", ""]);
    assert_eq!(
        kinds("7. .5"),
        vec![
            TokenType::Number,
            TokenType::Dot,
            TokenType::Dot,
            TokenType::Number,
            TokenType::EOF
        ]
    );
}

#[test]
fn number_then_identifier() {
    assert_eq!(kinds("12abc"), vec![TokenType::Number, TokenType::Identifier, TokenType::EOF]);
}

#[test]
fn string_spans_quotes() {
    let all = tokens("\"hi there\" x");
    assert_eq!(all[0], Token { token_type: TokenType::String, start: 0, length: 10, line: 1 });
    assert_eq!(all[1].token_type, TokenType::Identifier);
}

#[test]
fn string_may_span_lines() {
    let all = tokens("\"a\nb\nc\" x");
    assert_eq!(all[0], Token { token_type: TokenType::String, start: 0, length: 7, line: 3 });
    assert_eq!(all[1].line, 3);
}

#[test]
fn unterminated_string_is_an_error() {
    let source = "x \"abc\nd";
    let all = tokens(source);
    assert_eq!(all[1].token_type, TokenType::Error);
    assert_eq!(all[1].start, 2);
    assert_eq!(all[1].length, 6);
    assert_eq!(all[1].line, 2);
    assert_eq!(String::from_utf8(all[1].text(source.as_bytes())).unwrap(), "Unterminated string.");
    assert_eq!(all[2].token_type, TokenType::EOF);
}

#[test]
fn unexpected_character_is_an_error() {
    let source = "a @ b";
    let all = tokens(source);
    assert_eq!(all[1], Token { token_type: TokenType::Error, start: 2, length: 1, line: 1 });
    assert_eq!(String::from_utf8(all[1].text(source.as_bytes())).unwrap(), "Unexpected character.");
    assert_eq!(all[2].token_type, TokenType::Identifier);
}

#[test]
fn bytes_above_ascii_are_unexpected() {
    let all = kinds("é");
    assert_eq!(all, vec![TokenType::Error, TokenType::Error, TokenType::EOF]);
}

#[test]
fn nul_byte_is_unexpected() {
    assert_eq!(kinds("a\0b"), vec![TokenType::Identifier, TokenType::Error, TokenType::Identifier, TokenType::EOF]);
}

#[test]
fn whitespace_and_lines() {
    let all = tokens(" \t\r\n a\n\n b");
    assert_eq!(all[0], Token { token_type: TokenType::Identifier, start: 5, length: 1, line: 2 });
    assert_eq!(all[1], Token { token_type: TokenType::Identifier, start: 9, length: 1, line: 4 });
    assert_eq!(all[2], Token { token_type: TokenType::EOF, start: 10, length: 0, line: 4 });
}

#[test]
fn comments_run_to_the_end_of_the_line() {
    let all = tokens("a // b c \" @\n// only\nd / e //");
    let found: Vec<TokenType> = all.iter().map(|t| t.token_type).collect();
    assert_eq!(
        found,
        vec![
            TokenType::Identifier,
            TokenType::Identifier,
            TokenType::Slash,
            TokenType::Identifier,
            TokenType::EOF
        ]
    );
    assert_eq!(all[1].line, 3);
}

#[test]
fn classes_of_bytes() {
    for c in 0u8..=255 {
        let ch = c as char;
        assert_eq!(is_alpha(c), ch.is_ascii_alphabetic() || ch == '_');
        assert_eq!(is_digit(c), ch.is_ascii_digit());
    }
}

#[test]
fn scanner_state_follows_tokens() {
    let mut scanner = new_scanner("var  x".to_string());
    assert_eq!(scanner.current, 0);
    assert_eq!(scanner.line, 1);
    let first = scanner.scan_token();
    assert_eq!(first, Token { token_type: TokenType::Var, start: 0, length: 3, line: 1 });
    assert_eq!(scanner.start, 0);
    assert_eq!(scanner.current, 3);
    scanner.scan_token();
    assert_eq!(scanner.start, 5);
    assert_eq!(scanner.current, 6);
}

#[test]
fn default_token_is_eof() {
    assert_eq!(Token::default(), Token { token_type: TokenType::EOF, start: 0, length: 0, line: 0 });
    assert_eq!(TokenType::default(), TokenType::EOF);
}
