use minilua::lex::Lexer;
use minilua::token::{LiteralType, Token};

fn tokens(source: &str) -> Result<Vec<Token>, String> {
    Lexer::new(source).tokenize()
}

fn ident(name: &str) -> Token {
    Token::Identifier(name.to_string())
}

fn number(text: &str) -> Token {
    Token::Literal(LiteralType::Number(text.to_string()))
}

#[test]
fn lexes_operators_and_punctuation() {
    assert_eq!(
        tokens("+ - * / ( ) { } [ ] , = == ~= < <= > >= .. ."),
        Ok(vec![
            Token::Plus,
            Token::Minus,
            Token::Asterisk,
            Token::Slash,
            Token::LeftParen,
            Token::RightParen,
            Token::LeftBracket,
            Token::RightBracket,
            Token::LeftSquareBracket,
            Token::RightSquareBracket,
            Token::Comma,
            Token::Assigment,
            Token::Equal,
            Token::NotEqual,
            Token::LessThan,
            Token::LessThanOrEqual,
            Token::GreaterThan,
            Token::GreaterThanOrEqual,
            Token::Concatanation,
            Token::Dot,
        ])
    );
}

#[test]
fn lexes_keywords_and_literals() {
    assert_eq!(
        tokens("local function return if then else elseif end while for do repeat until nil true false"),
        Ok(vec![
            Token::Local,
            Token::Function,
            Token::Return,
            Token::If,
            Token::Then,
            Token::Else,
            Token::ElseIf,
            Token::End,
            Token::While,
            Token::For,
            Token::Do,
            Token::Repeat,
            Token::Until,
            Token::Literal(LiteralType::Nil),
            Token::Literal(LiteralType::Boolean(true)),
            Token::Literal(LiteralType::Boolean(false)),
        ])
    );
}

#[test]
fn lexes_a_statement() {
    assert_eq!(
        tokens("local a = 1 + 2.5 * x_1"),
        Ok(vec![
            Token::Local,
            ident("a"),
            Token::Assigment,
            number("1"),
            Token::Plus,
            number("2.5"),
            Token::Asterisk,
            ident("x_1"),
        ])
    );
}

#[test]
fn keyword_prefixes_are_identifiers() {
    assert_eq!(tokens("locals ends _x"), Ok(vec![ident("locals"), ident("ends"), ident("_x")]));
}

#[test]
fn strings_are_taken_verbatim() {
    assert_eq!(
        tokens("\"a b\\n\" \"\""),
        Ok(vec![
            Token::Literal(LiteralType::String("a b\\n".to_string())),
            Token::Literal(LiteralType::String(String::new())),
        ])
    );
}

#[test]
fn comments_run_to_the_end_of_the_line() {
    assert_eq!(tokens("1 -- two three\n4 --"), Ok(vec![number("1"), number("4")]));
}

#[test]
fn empty_and_blank_input_give_no_tokens() {
    assert_eq!(tokens(""), Ok(vec![]));
    assert_eq!(tokens(" \t\r\n "), Ok(vec![]));
}

#[test]
fn unicode_whitespace_separates_tokens() {
    assert_eq!(tokens("a\u{A0}b\u{2003}c"), Ok(vec![ident("a"), ident("b"), ident("c")]));
}

#[test]
fn unicode_letters_continue_identifiers() {
    assert_eq!(tokens("caf\u{E9} x\u{3B1}1"), Ok(vec![ident("caf\u{E9}"), ident("x\u{3B1}1")]));
}

#[test]
fn malformed_input_is_rejected() {
    assert!(tokens("1.2.3").is_err());
    assert!(tokens("a ~ b").is_err());
    assert!(tokens("\"open").is_err());
    assert!(tokens("a # b").is_err());
    assert!(tokens("\u{E9}").is_err());
}

#[test]
fn numerals_keep_their_text() {
    assert_eq!(tokens("10 3. 0.25"), Ok(vec![number("10"), number("3."), number("0.25")]));
}
