use vstd::prelude::*;
use crate::ast::{
    BinaryOperator, Expr, Expression, Statement, Stmt, block_model, branches_model, entries_model,
    expr_model, exprs_model, lemma_block_push, lemma_branches_push, lemma_entries_push,
    lemma_exprs_push, lemma_names_push, names_model, stmt_model,
};
use crate::grammar::{
    BlockEnd, Parsed, arguments_at, band_operator, band_tail, block_at, branches_at, else_at,
    ends_block, expression_at, for_at, function_at, if_at, is_at, local_at, assignment_at,
    parameters_at, primary_at, program_of, repeat_at, statement_at, step_at,
    table_entries_at, top_band, while_at,
};
use crate::lex::{Lexer, lex_from, tokens_of};
use crate::text::{message, push_decimal};
use crate::token::{LiteralType, Tok, Token, toks};

verus! {

pub open spec fn parsed_expr(r: Result<(Expression, usize), String>) -> Parsed<Expr> {
    match r {
        Ok((e, p)) => Ok((expr_model(e), p as int)),
        Err(_) => Err(()),
    }
}

pub open spec fn parsed_stmt(r: Result<(Statement, usize), String>) -> Parsed<Stmt> {
    match r {
        Ok((s, p)) => Ok((stmt_model(s), p as int)),
        Err(_) => Err(()),
    }
}

pub open spec fn parsed_block(r: Result<(Vec<Statement>, usize), String>) -> Parsed<Seq<Stmt>> {
    match r {
        Ok((b, p)) => Ok((block_model(b@), p as int)),
        Err(_) => Err(()),
    }
}

/// A successful parse ends after `pos` and within the tokens.
pub open spec fn advances<X>(r: Result<(X, usize), String>, pos: usize, len: usize) -> bool {
    r matches Ok((_, p)) ==> pos < p <= len
}

/// A successful parse ends at or after `pos` and within the tokens.
pub open spec fn stays_within<X>(r: Result<(X, usize), String>, pos: usize, len: usize) -> bool {
    r matches Ok((_, p)) ==> pos <= p <= len
}

/// `r` with `pre` put in front of its sequence.
pub open spec fn after<X>(pre: Seq<X>, r: Parsed<Seq<X>>) -> Parsed<Seq<X>> {
    match r {
        Ok((xs, j)) => Ok((pre + xs, j)),
        Err(e) => Err(e),
    }
}

pub open spec fn prefixed<X>(pre: Seq<X>, r: (Seq<X>, int)) -> (Seq<X>, int) {
    (pre + r.0, r.1)
}

/// The statements of the source text from `p` on.
pub open spec fn program_from(s: Seq<char>, p: int) -> Result<Seq<Stmt>, ()> {
    match lex_from(s, p) {
        Ok(ts) => program_of(ts),
        Err(e) => Err(e),
    }
}

/// `r` is what parsing the source text `s` from position `p` gives.
pub open spec fn parse_outcome(s: Seq<char>, p: int, r: Result<Vec<Statement>, String>) -> bool {
    match r {
        Ok(v) => program_from(s, p) == Ok::<Seq<Stmt>, ()>(block_model(v@)),
        Err(_) => program_from(s, p) is Err,
    }
}

/// The statements of a whole source text.
pub open spec fn program_source(s: Seq<char>) -> Result<Seq<Stmt>, ()> {
    match tokens_of(s) {
        Ok(ts) => program_of(ts),
        Err(e) => Err(e),
    }
}

fn same_literal(a: &LiteralType, b: &LiteralType) -> (r: bool)
    ensures
        r == (a@ == b@),
{
    match (a, b) {
        (LiteralType::Number(x), LiteralType::Number(y)) => *x == *y,
        (LiteralType::Boolean(x), LiteralType::Boolean(y)) => *x == *y,
        (LiteralType::String(x), LiteralType::String(y)) => *x == *y,
        (LiteralType::Nil, LiteralType::Nil) => true,
        _ => false,
    }
}

/// Whether two tokens are equal.
pub fn same_token(a: &Token, b: &Token) -> (r: bool)
    ensures
        r == (a@ == b@),
{
    match a {
        Token::Identifier(x) => match b {
            Token::Identifier(y) => *x == *y,
            _ => false,
        },
        Token::Literal(x) => match b {
            Token::Literal(y) => same_literal(x, y),
            _ => false,
        },
        Token::Local => matches!(b, Token::Local),
        Token::Function => matches!(b, Token::Function),
        Token::Return => matches!(b, Token::Return),
        Token::Plus => matches!(b, Token::Plus),
        Token::Minus => matches!(b, Token::Minus),
        Token::Asterisk => matches!(b, Token::Asterisk),
        Token::Slash => matches!(b, Token::Slash),
        Token::LeftParen => matches!(b, Token::LeftParen),
        Token::RightParen => matches!(b, Token::RightParen),
        Token::LeftBracket => matches!(b, Token::LeftBracket),
        Token::RightBracket => matches!(b, Token::RightBracket),
        Token::LeftSquareBracket => matches!(b, Token::LeftSquareBracket),
        Token::RightSquareBracket => matches!(b, Token::RightSquareBracket),
        Token::Assigment => matches!(b, Token::Assigment),
        Token::Dot => matches!(b, Token::Dot),
        Token::Comma => matches!(b, Token::Comma),
        Token::Equal => matches!(b, Token::Equal),
        Token::NotEqual => matches!(b, Token::NotEqual),
        Token::LessThan => matches!(b, Token::LessThan),
        Token::LessThanOrEqual => matches!(b, Token::LessThanOrEqual),
        Token::GreaterThan => matches!(b, Token::GreaterThan),
        Token::GreaterThanOrEqual => matches!(b, Token::GreaterThanOrEqual),
        Token::Concatanation => matches!(b, Token::Concatanation),
        Token::If => matches!(b, Token::If),
        Token::Then => matches!(b, Token::Then),
        Token::Else => matches!(b, Token::Else),
        Token::ElseIf => matches!(b, Token::ElseIf),
        Token::End => matches!(b, Token::End),
        Token::While => matches!(b, Token::While),
        Token::For => matches!(b, Token::For),
        Token::Do => matches!(b, Token::Do),
        Token::Repeat => matches!(b, Token::Repeat),
        Token::Until => matches!(b, Token::Until),
    }
}

/// How a token is written in the source, for diagnostics.
fn spelling(t: &Token) -> &'static str {
    match t {
        Token::Local => "local",
        Token::Function => "function",
        Token::Return => "return",
        Token::Identifier(_) => "identifier",
        Token::Literal(_) => "literal",
        Token::Plus => "+",
        Token::Minus => "-",
        Token::Asterisk => "*",
        Token::Slash => "/",
        Token::LeftParen => "(",
        Token::RightParen => ")",
        Token::LeftBracket => "{",
        Token::RightBracket => "}",
        Token::LeftSquareBracket => "[",
        Token::RightSquareBracket => "]",
        Token::Assigment => "=",
        Token::Dot => ".",
        Token::Comma => ",",
        Token::Equal => "==",
        Token::NotEqual => "~=",
        Token::LessThan => "<",
        Token::LessThanOrEqual => "<=",
        Token::GreaterThan => ">",
        Token::GreaterThanOrEqual => ">=",
        Token::Concatanation => "..",
        Token::If => "if",
        Token::Then => "then",
        Token::Else => "else",
        Token::ElseIf => "elseif",
        Token::End => "end",
        Token::While => "while",
        Token::For => "for",
        Token::Do => "do",
        Token::Repeat => "repeat",
        Token::Until => "until",
    }
}

/// Whether the token at `pos` is `t`.
fn token_at(tokens: &Vec<Token>, pos: usize, t: &Token) -> (r: bool)
    ensures
        r == is_at(toks(tokens@), pos as int, t@),
        r ==> pos < tokens.len(),
{
    pos < tokens.len() && same_token(&tokens[pos], t)
}

fn band_operator_of(band: u8, t: &Token) -> (r: Option<BinaryOperator>)
    ensures
        r == band_operator(band as nat, t@),
{
    if band == 3 {
        match t {
            Token::NotEqual => Some(BinaryOperator::NotEqual),
            Token::Equal => Some(BinaryOperator::Equal),
            Token::LessThan => Some(BinaryOperator::Less),
            Token::LessThanOrEqual => Some(BinaryOperator::LessEqual),
            Token::GreaterThan => Some(BinaryOperator::Greater),
            Token::GreaterThanOrEqual => Some(BinaryOperator::GreaterEqual),
            _ => None,
        }
    } else if band == 2 {
        match t {
            Token::Plus => Some(BinaryOperator::Add),
            Token::Minus => Some(BinaryOperator::Subtract),
            Token::Concatanation => Some(BinaryOperator::Concat),
            _ => None,
        }
    } else if band == 1 {
        match t {
            Token::Asterisk => Some(BinaryOperator::Multiply),
            Token::Slash => Some(BinaryOperator::Divide),
            _ => None,
        }
    } else {
        None
    }
}

fn ends_block_token(kind: BlockEnd, t: &Token) -> (r: bool)
    ensures
        r == ends_block(kind, t@),
{
    match kind {
        BlockEnd::End => matches!(t, Token::End),
        BlockEnd::Branch => matches!(t, Token::End) || matches!(t, Token::ElseIf) || matches!(t, Token::Else),
        BlockEnd::Until => matches!(t, Token::Until),
        BlockEnd::Program => false,
    }
}

/// Parses a program: a recursive-descent parser over the tokens of its source text.
pub struct Parser {
    lexer: Lexer,
}

impl Parser {
    /// The source text.
    pub closed spec fn text(&self) -> Seq<char> {
        self.lexer.text()
    }

    /// The position in the source text where parsing starts.
    pub closed spec fn position(&self) -> int {
        self.lexer.position()
    }

    pub closed spec fn wf(&self) -> bool {
        self.lexer.wf()
    }

    pub fn new(source_code: &str) -> (r: Parser)
        ensures
            r.wf(),
            r.text() == source_code@,
            r.position() == 0,
    {
        Parser { lexer: Lexer::new(source_code) }
    }

    fn expect(&self, tokens: &Vec<Token>, pos: usize, expected: Token) -> (r: Result<usize, String>)
        ensures
            match r {
                Ok(p) => is_at(toks(tokens@), pos as int, expected@) && p == pos + 1,
                Err(_) => !is_at(toks(tokens@), pos as int, expected@),
            },
    {
        if token_at(tokens, pos, &expected) {
            Ok(pos + 1)
        } else {
            let mut m = message("Expected '");
            m.push_str(spelling(&expected));
            m.push_str("'");
            Err(m)
        }
    }

    fn parse_identifier(&self, tokens: &Vec<Token>, pos: usize) -> (r: Result<(String, usize), String>)
        ensures
            match r {
                Ok((name, p)) => is_at(toks(tokens@), pos as int, Tok::Identifier(name@)) && p == pos + 1,
                Err(_) => !(pos < tokens.len() && tokens@[pos as int] is Identifier),
            },
    {
        if pos < tokens.len() {
            match &tokens[pos] {
                Token::Identifier(name) => {
                    return Ok((name.clone(), pos + 1));
                },
                _ => {},
            }
        }
        Err(message("Expected identifier"))
    }

    fn parse_expression(&self, tokens: &Vec<Token>, pos: usize) -> (r: Result<(Expression, usize), String>)
        requires
            pos <= tokens.len(),
        ensures
            parsed_expr(r) == expression_at(toks(tokens@), pos as int, top_band()),
            advances(r, pos, tokens.len()),
        decreases tokens.len() - pos, 8nat,
    {
        self.parse_band(tokens, pos, 3)
    }

    /// An expression of precedence band `band` or higher: operands of the next band joined,
    /// left-associatively, by this band's operators.
    fn parse_band(&self, tokens: &Vec<Token>, pos: usize, band: u8) -> (r: Result<(Expression, usize), String>)
        requires
            pos <= tokens.len(),
            1 <= band <= 3,
        ensures
            parsed_expr(r) == expression_at(toks(tokens@), pos as int, band as nat),
            advances(r, pos, tokens.len()),
        decreases tokens.len() - pos, 2 * band + 1,
    {
        let ghost ts = toks(tokens@);
        let first = if band == 1 {
            self.parse_primary(tokens, pos)
        } else {
            self.parse_band(tokens, pos, band - 1)
        };
        let (mut left, mut at) = match first {
            Ok(x) => x,
            Err(e) => {
                return Err(e);
            },
        };
        loop
            invariant
                ts == toks(tokens@),
                1 <= band <= 3,
                pos < at <= tokens.len(),
                expression_at(ts, pos as int, band as nat) == band_tail(ts, at as int, band as nat, expr_model(left)),
            decreases tokens.len() - at,
        {
            let op = if at < tokens.len() {
                band_operator_of(band, &tokens[at])
            } else {
                None
            };
            match op {
                None => {
                    return Ok((left, at));
                },
                Some(op) => {
                    let next = if band == 1 {
                        self.parse_primary(tokens, at + 1)
                    } else {
                        self.parse_band(tokens, at + 1, band - 1)
                    };
                    match next {
                        Ok((right, k)) => {
                            left = Expression::BinaryExpression(Box::new(left), op, Box::new(right));
                            at = k;
                        },
                        Err(e) => {
                            return Err(e);
                        },
                    }
                },
            }
        }
    }

    /// A literal, a name, a call, a parenthesised expression or a table.
    fn parse_primary(&self, tokens: &Vec<Token>, pos: usize) -> (r: Result<(Expression, usize), String>)
        requires
            pos <= tokens.len(),
        ensures
            parsed_expr(r) == primary_at(toks(tokens@), pos as int),
            advances(r, pos, tokens.len()),
        decreases tokens.len() - pos, 0nat,
    {
        if pos >= tokens.len() {
            return Err(message("Expected factor"));
        }
        match &tokens[pos] {
            Token::LeftParen => match self.parse_expression(tokens, pos + 1) {
                Ok((e, j)) => {
                    if j < tokens.len() && matches!(tokens[j], Token::RightParen) {
                        Ok((e, j + 1))
                    } else {
                        Err(message("Expected ')'"))
                    }
                },
                Err(e) => Err(e),
            },
            Token::LeftBracket => match self.parse_table(tokens, pos + 1) {
                Ok((entries, j)) => {
                    if j < tokens.len() && matches!(tokens[j], Token::RightBracket) {
                        Ok((Expression::TableLiteral(entries), j + 1))
                    } else {
                        Err(message("Expected '}'"))
                    }
                },
                Err(e) => Err(e),
            },
            Token::Literal(LiteralType::Number(t)) => Ok((Expression::NumberLiteral(t.clone()), pos + 1)),
            Token::Literal(LiteralType::Boolean(b)) => Ok((Expression::BooleanLiteral(*b), pos + 1)),
            Token::Literal(LiteralType::Nil) => Ok((Expression::NilLiteral, pos + 1)),
            Token::Literal(LiteralType::String(s)) => Ok((Expression::StringLiteral(s.clone()), pos + 1)),
            Token::Identifier(name) => {
                if pos + 1 < tokens.len() && matches!(tokens[pos + 1], Token::LeftParen) {
                    let (args, j) = self.parse_arguments(tokens, pos + 2);
                    if j < tokens.len() && matches!(tokens[j], Token::RightParen) {
                        Ok((Expression::FunctionCall(name.clone(), args), j + 1))
                    } else {
                        Err(message("Expected ')'"))
                    }
                } else {
                    Ok((Expression::IdentifierExpression(name.clone()), pos + 1))
                }
            },
            _ => Err(message("Unexpected token")),
        }
    }

    /// Call arguments: expressions separated by commas, up to the first that does not parse.
    fn parse_arguments(&self, tokens: &Vec<Token>, pos: usize) -> (r: (Vec<Expression>, usize))
        requires
            pos <= tokens.len(),
        ensures
            (exprs_model(r.0@), r.1 as int) == arguments_at(toks(tokens@), pos as int),
            pos <= r.1 <= tokens.len(),
        decreases tokens.len() - pos, 9nat,
    {
        let ghost ts = toks(tokens@);
        let mut args: Vec<Expression> = Vec::new();
        let mut at = pos;
        assert(prefixed(exprs_model(args@), arguments_at(ts, at as int)) =~= arguments_at(ts, at as int));
        loop
            invariant
                ts == toks(tokens@),
                pos <= at <= tokens.len(),
                arguments_at(ts, pos as int) == prefixed(exprs_model(args@), arguments_at(ts, at as int)),
            decreases tokens.len() - at,
        {
            match self.parse_expression(tokens, at) {
                Ok((e, k)) => {
                    proof {
                        lemma_exprs_push(args@, e);
                    }
                    args.push(e);
                    if k < tokens.len() && matches!(tokens[k], Token::Comma) {
                        assert(exprs_model(args@) + arguments_at(ts, k + 1).0 =~= exprs_model(args@.drop_last()) + (seq![expr_model(e)] + arguments_at(ts, k + 1).0));
                        at = k + 1;
                    } else {
                        assert(exprs_model(args@) =~= exprs_model(args@.drop_last()) + seq![expr_model(e)]);
                        return (args, k);
                    }
                },
                Err(_) => {
                    assert(exprs_model(args@) + seq![] =~= exprs_model(args@));
                    return (args, at);
                },
            }
        }
    }

    /// Table entries up to `}`: commas are skipped and the `n`-th expression gets the key `n`.
    fn parse_table(&self, tokens: &Vec<Token>, pos: usize) -> (r: Result<(Vec<(Expression, Expression)>, usize), String>)
        requires
            1 <= pos <= tokens.len(),
        ensures
            match r {
                Ok((v, p)) => table_entries_at(toks(tokens@), pos as int, 1) == Ok::<(Seq<(Expr, Expr)>, int), ()>((entries_model(v@), p as int)) && pos <= p <= tokens.len(),
                Err(_) => table_entries_at(toks(tokens@), pos as int, 1) is Err,
            },
        decreases tokens.len() - pos, 9nat,
    {
        let ghost ts = toks(tokens@);
        let mut entries: Vec<(Expression, Expression)> = Vec::new();
        let mut at = pos;
        let mut n: usize = 1;
        assert(after(entries_model(entries@), table_entries_at(ts, at as int, n as nat)) =~= table_entries_at(ts, at as int, n as nat));
        loop
            invariant
                ts == toks(tokens@),
                pos <= at <= tokens.len(),
                1 <= n <= at,
                table_entries_at(ts, pos as int, 1) == after(entries_model(entries@), table_entries_at(ts, at as int, n as nat)),
            decreases tokens.len() - at,
        {
            if at >= tokens.len() || matches!(tokens[at], Token::RightBracket) {
                assert(entries_model(entries@) + seq![] =~= entries_model(entries@));
                return Ok((entries, at));
            }
            if matches!(tokens[at], Token::Comma) {
                at = at + 1;
            } else {
                match self.parse_expression(tokens, at) {
                    Ok((e, k)) => {
                        let mut numeral = String::new();
                        push_decimal(&mut numeral, n);
                        let entry = (Expression::NumberLiteral(numeral), e);
                        proof {
                            lemma_entries_push(entries@, entry);
                            match table_entries_at(ts, k as int, (n + 1) as nat) {
                                Ok((rest, m)) => {
                                    assert(entries_model(entries@.push(entry)) + rest =~= entries_model(entries@) + (seq![(expr_model(entry.0), expr_model(entry.1))] + rest));
                                },
                                Err(_) => {},
                            }
                        }
                        entries.push(entry);
                        at = k;
                        n = n + 1;
                    },
                    Err(e) => {
                        return Err(e);
                    },
                }
            }
        }
    }

    /// The statements up to (not including) a token that ends a block of `kind`.
    fn parse_block_until(&self, tokens: &Vec<Token>, pos: usize, kind: BlockEnd) -> (r: Result<(Vec<Statement>, usize), String>)
        requires
            pos <= tokens.len(),
        ensures
            parsed_block(r) == block_at(toks(tokens@), pos as int, kind),
            stays_within(r, pos, tokens.len()),
        decreases tokens.len() - pos, 12nat,
    {
        let ghost ts = toks(tokens@);
        let mut statements: Vec<Statement> = Vec::new();
        let mut at = pos;
        assert(after(block_model(statements@), block_at(ts, at as int, kind)) =~= block_at(ts, at as int, kind));
        loop
            invariant
                ts == toks(tokens@),
                pos <= at <= tokens.len(),
                block_at(ts, pos as int, kind) == after(block_model(statements@), block_at(ts, at as int, kind)),
            decreases tokens.len() - at,
        {
            if at >= tokens.len() || ends_block_token(kind, &tokens[at]) {
                assert(block_model(statements@) + seq![] =~= block_model(statements@));
                return Ok((statements, at));
            }
            match self.parse_single_statement(tokens, at) {
                Ok((st, k)) => {
                    proof {
                        lemma_block_push(statements@, st);
                        match block_at(ts, k as int, kind) {
                            Ok((rest, m)) => {
                                assert(block_model(statements@.push(st)) + rest =~= block_model(statements@) + (seq![stmt_model(st)] + rest));
                            },
                            Err(_) => {},
                        }
                    }
                    statements.push(st);
                    at = k;
                },
                Err(e) => {
                    return Err(e);
                },
            }
        }
    }

    /// One statement, chosen by its first token.
    fn parse_single_statement(&self, tokens: &Vec<Token>, pos: usize) -> (r: Result<(Statement, usize), String>)
        requires
            pos <= tokens.len(),
        ensures
            parsed_stmt(r) == statement_at(toks(tokens@), pos as int),
            advances(r, pos, tokens.len()),
        decreases tokens.len() - pos, 11nat,
    {
        if pos >= tokens.len() {
            return Err(message("Unexpected end of input"));
        }
        match &tokens[pos] {
            Token::Local => self.parse_local_variable_declaration(tokens, pos),
            Token::Identifier(_) => {
                if pos + 1 < tokens.len() && matches!(tokens[pos + 1], Token::Assigment) {
                    self.parse_assigment_statement(tokens, pos)
                } else {
                    match self.parse_expression(tokens, pos) {
                        Ok((e, j)) => Ok((Statement::ExpressionStatement(Box::new(e)), j)),
                        Err(e) => Err(e),
                    }
                }
            },
            Token::If => self.parse_if_statement(tokens, pos),
            Token::While => self.parse_while_loop(tokens, pos),
            Token::For => self.parse_for_loop(tokens, pos),
            Token::Function => self.parse_function_declaration(tokens, pos),
            Token::Return => self.parse_return_statement(tokens, pos),
            Token::Repeat => self.parse_repeat_statement(tokens, pos),
            _ => Err(message("Unexpected top-level token")),
        }
    }

    fn parse_local_variable_declaration(&self, tokens: &Vec<Token>, pos: usize) -> (r: Result<(Statement, usize), String>)
        requires
            pos < tokens.len(),
        ensures
            parsed_stmt(r) == local_at(toks(tokens@), pos as int),
            advances(r, pos, tokens.len()),
        decreases tokens.len() - pos, 10nat,
    {
        let (name, j) = match self.parse_identifier(tokens, pos + 1) {
            Ok(x) => x,
            Err(e) => {
                return Err(e);
            },
        };
        let k = match self.expect(tokens, j, Token::Assigment) {
            Ok(k) => k,
            Err(e) => {
                return Err(e);
            },
        };
        match self.parse_expression(tokens, k) {
            Ok((e, m)) => Ok((Statement::LocalVariableDeclaration(name, Box::new(e)), m)),
            Err(e) => Err(e),
        }
    }

    fn parse_assigment_statement(&self, tokens: &Vec<Token>, pos: usize) -> (r: Result<(Statement, usize), String>)
        requires
            pos < tokens.len(),
        ensures
            parsed_stmt(r) == assignment_at(toks(tokens@), pos as int),
            advances(r, pos, tokens.len()),
        decreases tokens.len() - pos, 10nat,
    {
        let (name, j) = match self.parse_identifier(tokens, pos) {
            Ok(x) => x,
            Err(e) => {
                return Err(e);
            },
        };
        let k = match self.expect(tokens, j, Token::Assigment) {
            Ok(k) => k,
            Err(e) => {
                return Err(e);
            },
        };
        match self.parse_expression(tokens, k) {
            Ok((e, m)) => Ok((Statement::AssigmentStatement(name, Box::new(e)), m)),
            Err(e) => Err(e),
        }
    }

    fn parse_return_statement(&self, tokens: &Vec<Token>, pos: usize) -> (r: Result<(Statement, usize), String>)
        requires
            pos < tokens.len(),
            tokens@[pos as int] is Return,
        ensures
            parsed_stmt(r) == statement_at(toks(tokens@), pos as int),
            advances(r, pos, tokens.len()),
        decreases tokens.len() - pos, 10nat,
    {
        match self.parse_expression(tokens, pos + 1) {
            Ok((e, m)) => Ok((Statement::ReturnStatement(Box::new(e)), m)),
            Err(e) => Err(e),
        }
    }

    fn parse_while_loop(&self, tokens: &Vec<Token>, pos: usize) -> (r: Result<(Statement, usize), String>)
        requires
            pos < tokens.len(),
        ensures
            parsed_stmt(r) == while_at(toks(tokens@), pos as int),
            advances(r, pos, tokens.len()),
        decreases tokens.len() - pos, 10nat,
    {
        let (condition, j) = match self.parse_expression(tokens, pos + 1) {
            Ok(x) => x,
            Err(e) => {
                return Err(e);
            },
        };
        let k = match self.expect(tokens, j, Token::Do) {
            Ok(k) => k,
            Err(e) => {
                return Err(e);
            },
        };
        let (block, m) = match self.parse_block_until(tokens, k, BlockEnd::End) {
            Ok(x) => x,
            Err(e) => {
                return Err(e);
            },
        };
        let n = match self.expect(tokens, m, Token::End) {
            Ok(n) => n,
            Err(e) => {
                return Err(e);
            },
        };
        Ok((Statement::WhileLoop { loop_condition: Box::new(condition), code_block: block }, n))
    }

    fn parse_repeat_statement(&self, tokens: &Vec<Token>, pos: usize) -> (r: Result<(Statement, usize), String>)
        requires
            pos < tokens.len(),
        ensures
            parsed_stmt(r) == repeat_at(toks(tokens@), pos as int),
            advances(r, pos, tokens.len()),
        decreases tokens.len() - pos, 10nat,
    {
        let (block, j) = match self.parse_block_until(tokens, pos + 1, BlockEnd::Until) {
            Ok(x) => x,
            Err(e) => {
                return Err(e);
            },
        };
        let k = match self.expect(tokens, j, Token::Until) {
            Ok(k) => k,
            Err(e) => {
                return Err(e);
            },
        };
        match self.parse_expression(tokens, k) {
            Ok((condition, m)) => Ok((Statement::RepeatUntilLoop { code_block: block, loop_condition: Box::new(condition) }, m)),
            Err(e) => Err(e),
        }
    }

    fn parse_for_loop(&self, tokens: &Vec<Token>, pos: usize) -> (r: Result<(Statement, usize), String>)
        requires
            pos < tokens.len(),
        ensures
            parsed_stmt(r) == for_at(toks(tokens@), pos as int),
            advances(r, pos, tokens.len()),
        decreases tokens.len() - pos, 10nat,
    {
        let ghost ts = toks(tokens@);
        let (name, j) = match self.parse_identifier(tokens, pos + 1) {
            Ok(x) => x,
            Err(e) => {
                return Err(e);
            },
        };
        let k = match self.expect(tokens, j, Token::Assigment) {
            Ok(k) => k,
            Err(e) => {
                return Err(e);
            },
        };
        let (start, m) = match self.parse_expression(tokens, k) {
            Ok(x) => x,
            Err(e) => {
                return Err(e);
            },
        };
        let m1 = match self.expect(tokens, m, Token::Comma) {
            Ok(x) => x,
            Err(e) => {
                return Err(e);
            },
        };
        let (end, n) = match self.parse_expression(tokens, m1) {
            Ok(x) => x,
            Err(e) => {
                return Err(e);
            },
        };
        let (step, q) = if token_at(tokens, n, &Token::Comma) {
            match self.parse_expression(tokens, n + 1) {
                Ok(x) => x,
                Err(e) => {
                    return Err(e);
                },
            }
        } else {
            let mut one = String::new();
            one.push('1');
            assert(one@ =~= seq!['1']);
            (Expression::NumberLiteral(one), n)
        };
        assert(step_at(ts, n as int) == Ok::<(Expr, int), ()>((expr_model(step), q as int)));
        let q1 = match self.expect(tokens, q, Token::Do) {
            Ok(x) => x,
            Err(e) => {
                return Err(e);
            },
        };
        let (block, t) = match self.parse_block_until(tokens, q1, BlockEnd::End) {
            Ok(x) => x,
            Err(e) => {
                return Err(e);
            },
        };
        let t1 = match self.expect(tokens, t, Token::End) {
            Ok(x) => x,
            Err(e) => {
                return Err(e);
            },
        };
        Ok((
            Statement::ForLoop {
                iterator_identifier: name,
                starting_value: Box::new(start),
                ending_value: Box::new(end),
                step_value: Box::new(step),
                code_block: block,
            },
            t1,
        ))
    }

    /// Parameter names separated by commas.
    fn parse_parameters(&self, tokens: &Vec<Token>, pos: usize) -> (r: (Vec<String>, usize))
        requires
            pos <= tokens.len(),
        ensures
            (names_model(r.0@), r.1 as int) == parameters_at(toks(tokens@), pos as int),
            pos <= r.1 <= tokens.len(),
    {
        let ghost ts = toks(tokens@);
        let mut names: Vec<String> = Vec::new();
        let mut at = pos;
        assert(prefixed(names_model(names@), parameters_at(ts, at as int)) =~= parameters_at(ts, at as int));
        loop
            invariant
                ts == toks(tokens@),
                pos <= at <= tokens.len(),
                parameters_at(ts, pos as int) == prefixed(names_model(names@), parameters_at(ts, at as int)),
            decreases tokens.len() - at,
        {
            match self.parse_identifier(tokens, at) {
                Ok((name, k)) => {
                    proof {
                        lemma_names_push(names@, name);
                    }
                    names.push(name);
                    if token_at(tokens, k, &Token::Comma) {
                        assert(names_model(names@) + parameters_at(ts, k + 1).0 =~= names_model(names@.drop_last()) + (seq![names@.last()@] + parameters_at(ts, k + 1).0));
                        at = k + 1;
                    } else {
                        assert(names_model(names@) =~= names_model(names@.drop_last()) + seq![names@.last()@]);
                        return (names, k);
                    }
                },
                Err(_) => {
                    assert(names_model(names@) + seq![] =~= names_model(names@));
                    return (names, at);
                },
            }
        }
    }

    fn parse_function_declaration(&self, tokens: &Vec<Token>, pos: usize) -> (r: Result<(Statement, usize), String>)
        requires
            pos < tokens.len(),
        ensures
            parsed_stmt(r) == function_at(toks(tokens@), pos as int),
            advances(r, pos, tokens.len()),
        decreases tokens.len() - pos, 10nat,
    {
        let (name, j) = match self.parse_identifier(tokens, pos + 1) {
            Ok(x) => x,
            Err(e) => {
                return Err(e);
            },
        };
        let k = match self.expect(tokens, j, Token::LeftParen) {
            Ok(k) => k,
            Err(e) => {
                return Err(e);
            },
        };
        let (params, m) = self.parse_parameters(tokens, k);
        let m1 = match self.expect(tokens, m, Token::RightParen) {
            Ok(x) => x,
            Err(e) => {
                return Err(e);
            },
        };
        let (body, n) = match self.parse_block_until(tokens, m1, BlockEnd::End) {
            Ok(x) => x,
            Err(e) => {
                return Err(e);
            },
        };
        let n1 = match self.expect(tokens, n, Token::End) {
            Ok(x) => x,
            Err(e) => {
                return Err(e);
            },
        };
        Ok((
            Statement::FunctionDeclaration {
                function_name: name,
                function_arguments: params,
                function_body: body,
            },
            n1,
        ))
    }

    /// The `elseif c then block` branches.
    fn parse_elseif_branches(&self, tokens: &Vec<Token>, pos: usize) -> (r: Result<(Vec<(Box<Expression>, Vec<Statement>)>, usize), String>)
        requires
            pos <= tokens.len(),
        ensures
            match r {
                Ok((v, p)) => branches_at(toks(tokens@), pos as int) == Ok::<(Seq<(Expr, Seq<Stmt>)>, int), ()>((branches_model(v@), p as int)) && pos <= p <= tokens.len(),
                Err(_) => branches_at(toks(tokens@), pos as int) is Err,
            },
        decreases tokens.len() - pos, 11nat,
    {
        let ghost ts = toks(tokens@);
        let mut branches: Vec<(Box<Expression>, Vec<Statement>)> = Vec::new();
        let mut at = pos;
        assert(after(branches_model(branches@), branches_at(ts, at as int)) =~= branches_at(ts, at as int));
        loop
            invariant
                ts == toks(tokens@),
                pos <= at <= tokens.len(),
                branches_at(ts, pos as int) == after(branches_model(branches@), branches_at(ts, at as int)),
            decreases tokens.len() - at,
        {
            if !token_at(tokens, at, &Token::ElseIf) {
                assert(branches_model(branches@) + seq![] =~= branches_model(branches@));
                return Ok((branches, at));
            }
            let (condition, j) = match self.parse_expression(tokens, at + 1) {
                Ok(x) => x,
                Err(e) => {
                    return Err(e);
                },
            };
            let k = match self.expect(tokens, j, Token::Then) {
                Ok(k) => k,
                Err(e) => {
                    return Err(e);
                },
            };
            let (block, m) = match self.parse_block_until(tokens, k, BlockEnd::Branch) {
                Ok(x) => x,
                Err(e) => {
                    return Err(e);
                },
            };
            let branch = (Box::new(condition), block);
            proof {
                lemma_branches_push(branches@, branch);
                match branches_at(ts, m as int) {
                    Ok((rest, q)) => {
                        assert(branches_model(branches@.push(branch)) + rest =~= branches_model(branches@) + (seq![(expr_model(*branch.0), block_model(branch.1@))] + rest));
                    },
                    Err(_) => {},
                }
            }
            branches.push(branch);
            at = m;
        }
    }

    fn parse_if_statement(&self, tokens: &Vec<Token>, pos: usize) -> (r: Result<(Statement, usize), String>)
        requires
            pos < tokens.len(),
        ensures
            parsed_stmt(r) == if_at(toks(tokens@), pos as int),
            advances(r, pos, tokens.len()),
        decreases tokens.len() - pos, 10nat,
    {
        let ghost ts = toks(tokens@);
        let (condition, j) = match self.parse_expression(tokens, pos + 1) {
            Ok(x) => x,
            Err(e) => {
                return Err(e);
            },
        };
        let k = match self.expect(tokens, j, Token::Then) {
            Ok(k) => k,
            Err(e) => {
                return Err(e);
            },
        };
        let (block, m) = match self.parse_block_until(tokens, k, BlockEnd::Branch) {
            Ok(x) => x,
            Err(e) => {
                return Err(e);
            },
        };
        let (branches, n) = match self.parse_elseif_branches(tokens, m) {
            Ok(x) => x,
            Err(e) => {
                return Err(e);
            },
        };
        let (otherwise, q) = if token_at(tokens, n, &Token::Else) {
            match self.parse_block_until(tokens, n + 1, BlockEnd::End) {
                Ok((b, q)) => (Some(b), q),
                Err(e) => {
                    return Err(e);
                },
            }
        } else {
            (None, n)
        };
        assert(else_at(ts, n as int) == Ok::<(Option<Seq<Stmt>>, int), ()>((
            match otherwise {
                Some(b) => Some(block_model(b@)),
                None => None,
            },
            q as int,
        )));
        let q1 = match self.expect(tokens, q, Token::End) {
            Ok(x) => x,
            Err(e) => {
                return Err(e);
            },
        };
        Ok((
            Statement::IfStatement {
                basic_condition: Box::new(condition),
                code_block: block,
                elseif_statements: branches,
                else_block: otherwise,
            },
            q1,
        ))
    }

    /// Reads the tokens of the source text and parses them into the program's statements.
    pub fn parse(&mut self) -> (r: Result<Vec<Statement>, String>)
        requires
            old(self).wf(),
        ensures
            final(self).wf(),
            parse_outcome(old(self).text(), old(self).position(), r),
    {
        let tokens = match self.lexer.tokenize() {
            Ok(t) => t,
            Err(e) => {
                return Err(e);
            },
        };
        match self.parse_block_until(&tokens, 0, BlockEnd::Program) {
            Ok((statements, _)) => Ok(statements),
            Err(e) => Err(e),
        }
    }
}

} // verus!
