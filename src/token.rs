use vstd::prelude::*;

verus! {

/// The payload of a literal token.
#[derive(Debug, PartialEq, Clone)]
pub enum LiteralType {
    /// A numeral as written in the source: a digit, then digits and at most one dot.
    Number(String),
    Boolean(bool),
    String(String),
    Nil,
}

/// One token of the source text.
#[derive(Debug, PartialEq, Clone)]
pub enum Token {
    Local,
    Function,
    Return,
    Identifier(String),
    Literal(LiteralType),
    Plus,
    Minus,
    Asterisk,
    Slash,
    LeftParen,
    RightParen,
    LeftBracket,
    RightBracket,
    LeftSquareBracket,
    RightSquareBracket,
    Assigment,
    Dot,
    Comma,
    Equal,
    NotEqual,
    LessThan,
    LessThanOrEqual,
    GreaterThan,
    GreaterThanOrEqual,
    Concatanation,
    If,
    Then,
    Else,
    ElseIf,
    End,
    While,
    For,
    Do,
    Repeat,
    Until,
}

/// Mathematical model of a literal payload.
pub ghost enum Lit {
    Number(Seq<char>),
    Boolean(bool),
    Str(Seq<char>),
    Nil,
}

/// Mathematical model of a token: the same variants, with text as `Seq<char>`.
pub ghost enum Tok {
    Local,
    Function,
    Return,
    Identifier(Seq<char>),
    Literal(Lit),
    Plus,
    Minus,
    Asterisk,
    Slash,
    LeftParen,
    RightParen,
    LeftBracket,
    RightBracket,
    LeftSquareBracket,
    RightSquareBracket,
    Assigment,
    Dot,
    Comma,
    Equal,
    NotEqual,
    LessThan,
    LessThanOrEqual,
    GreaterThan,
    GreaterThanOrEqual,
    Concatanation,
    If,
    Then,
    Else,
    ElseIf,
    End,
    While,
    For,
    Do,
    Repeat,
    Until,
}

impl View for LiteralType {
    type V = Lit;

    open spec fn view(&self) -> Lit {
        match self {
            LiteralType::Number(t) => Lit::Number(t@),
            LiteralType::Boolean(b) => Lit::Boolean(*b),
            LiteralType::String(s) => Lit::Str(s@),
            LiteralType::Nil => Lit::Nil,
        }
    }
}

impl View for Token {
    type V = Tok;

    open spec fn view(&self) -> Tok {
        match self {
            Token::Local => Tok::Local,
            Token::Function => Tok::Function,
            Token::Return => Tok::Return,
            Token::Identifier(name) => Tok::Identifier(name@),
            Token::Literal(lit) => Tok::Literal(lit@),
            Token::Plus => Tok::Plus,
            Token::Minus => Tok::Minus,
            Token::Asterisk => Tok::Asterisk,
            Token::Slash => Tok::Slash,
            Token::LeftParen => Tok::LeftParen,
            Token::RightParen => Tok::RightParen,
            Token::LeftBracket => Tok::LeftBracket,
            Token::RightBracket => Tok::RightBracket,
            Token::LeftSquareBracket => Tok::LeftSquareBracket,
            Token::RightSquareBracket => Tok::RightSquareBracket,
            Token::Assigment => Tok::Assigment,
            Token::Dot => Tok::Dot,
            Token::Comma => Tok::Comma,
            Token::Equal => Tok::Equal,
            Token::NotEqual => Tok::NotEqual,
            Token::LessThan => Tok::LessThan,
            Token::LessThanOrEqual => Tok::LessThanOrEqual,
            Token::GreaterThan => Tok::GreaterThan,
            Token::GreaterThanOrEqual => Tok::GreaterThanOrEqual,
            Token::Concatanation => Tok::Concatanation,
            Token::If => Tok::If,
            Token::Then => Tok::Then,
            Token::Else => Tok::Else,
            Token::ElseIf => Tok::ElseIf,
            Token::End => Tok::End,
            Token::While => Tok::While,
            Token::For => Tok::For,
            Token::Do => Tok::Do,
            Token::Repeat => Tok::Repeat,
            Token::Until => Tok::Until,
        }
    }
}

/// The models of a sequence of tokens.
pub open spec fn toks(v: Seq<Token>) -> Seq<Tok> {
    v.map_values(|t: Token| t@)
}

} // verus!
