use vstd::prelude::*;
use crate::ast::{BinaryOperator, Expr, Stmt};
use crate::text::decimal;
use crate::token::{Lit, Tok};

verus! {

/// A parse of a prefix: the value and the position after it, or a syntax error.
pub type Parsed<X> = Result<(X, int), ()>;

pub open spec fn is_at(ts: Seq<Tok>, i: int, t: Tok) -> bool {
    0 <= i < ts.len() && ts[i] == t
}

/// The highest precedence band of binary operators; band 0 is a primary expression.
pub open spec fn top_band() -> nat {
    3
}

/// The operator that `t` stands for in precedence band `band`
/// (3: comparison, 2: additive and concatenation, 1: multiplicative).
pub open spec fn band_operator(band: nat, t: Tok) -> Option<BinaryOperator> {
    if band == 3 {
        match t {
            Tok::NotEqual => Some(BinaryOperator::NotEqual),
            Tok::Equal => Some(BinaryOperator::Equal),
            Tok::LessThan => Some(BinaryOperator::Less),
            Tok::LessThanOrEqual => Some(BinaryOperator::LessEqual),
            Tok::GreaterThan => Some(BinaryOperator::Greater),
            Tok::GreaterThanOrEqual => Some(BinaryOperator::GreaterEqual),
            _ => None,
        }
    } else if band == 2 {
        match t {
            Tok::Plus => Some(BinaryOperator::Add),
            Tok::Minus => Some(BinaryOperator::Subtract),
            Tok::Concatanation => Some(BinaryOperator::Concat),
            _ => None,
        }
    } else if band == 1 {
        match t {
            Tok::Asterisk => Some(BinaryOperator::Multiply),
            Tok::Slash => Some(BinaryOperator::Divide),
            _ => None,
        }
    } else {
        None
    }
}

pub open spec fn operator_at(ts: Seq<Tok>, i: int, band: nat) -> Option<BinaryOperator> {
    if 0 <= i < ts.len() { band_operator(band, ts[i]) } else { None }
}

/// An expression of precedence band `band` or higher starting at `i`: operands of the next
/// band joined by this band's operators, left-associative.
pub open spec fn expression_at(ts: Seq<Tok>, i: int, band: nat) -> Parsed<Expr>
    decreases ts.len() - i, 2 * band + 1,
{
    if band == 0 {
        primary_at(ts, i)
    } else {
        match expression_at(ts, i, (band - 1) as nat) {
            Ok((left, j)) => if i < j <= ts.len() { band_tail(ts, j, band, left) } else { Err(()) },
            Err(e) => Err(e),
        }
    }
}

/// Continues a band-`band` expression whose left operand `left` ends before `j`.
pub open spec fn band_tail(ts: Seq<Tok>, j: int, band: nat, left: Expr) -> Parsed<Expr>
    decreases ts.len() - j, 2 * band,
{
    if band == 0 || j < 0 {
        Ok((left, j))
    } else {
        match operator_at(ts, j, band) {
            Some(op) => match expression_at(ts, j + 1, (band - 1) as nat) {
                Ok((right, k)) => if j + 1 < k <= ts.len() {
                    band_tail(ts, k, band, Expr::Binary(Box::new(left), op, Box::new(right)))
                } else {
                    Err(())
                },
                Err(e) => Err(e),
            },
            None => Ok((left, j)),
        }
    }
}

/// A primary expression: a literal, a name, a call, a parenthesised expression or a table.
pub open spec fn primary_at(ts: Seq<Tok>, i: int) -> Parsed<Expr>
    decreases ts.len() - i, 0nat,
{
    if i < 0 || i >= ts.len() {
        Err(())
    } else {
        match ts[i] {
            Tok::LeftParen => match expression_at(ts, i + 1, top_band()) {
                Ok((e, j)) => if i + 1 < j <= ts.len() && is_at(ts, j, Tok::RightParen) {
                    Ok((e, j + 1))
                } else {
                    Err(())
                },
                Err(e) => Err(e),
            },
            Tok::LeftBracket => match table_entries_at(ts, i + 1, 1) {
                Ok((entries, j)) => if is_at(ts, j, Tok::RightBracket) {
                    Ok((Expr::Table(entries), j + 1))
                } else {
                    Err(())
                },
                Err(e) => Err(e),
            },
            Tok::Literal(Lit::Number(t)) => Ok((Expr::Number(t), i + 1)),
            Tok::Literal(Lit::Boolean(b)) => Ok((Expr::Boolean(b), i + 1)),
            Tok::Literal(Lit::Nil) => Ok((Expr::Nil, i + 1)),
            Tok::Literal(Lit::Str(s)) => Ok((Expr::Str(s), i + 1)),
            Tok::Identifier(name) => if is_at(ts, i + 1, Tok::LeftParen) {
                let (args, j) = arguments_at(ts, i + 2);
                if is_at(ts, j, Tok::RightParen) {
                    Ok((Expr::Call(name, args), j + 1))
                } else {
                    Err(())
                }
            } else {
                Ok((Expr::Ident(name), i + 1))
            },
            _ => Err(()),
        }
    }
}

/// Call arguments from `j` on: expressions separated by commas, ending where the next
/// expression does not parse.
pub open spec fn arguments_at(ts: Seq<Tok>, j: int) -> (Seq<Expr>, int)
    decreases ts.len() - j, 8nat,
{
    if j < 0 || j > ts.len() {
        (seq![], j)
    } else {
        match expression_at(ts, j, top_band()) {
            Ok((e, k)) => if j < k <= ts.len() {
                if is_at(ts, k, Tok::Comma) {
                    let (rest, m) = arguments_at(ts, k + 1);
                    (seq![e] + rest, m)
                } else {
                    (seq![e], k)
                }
            } else {
                (seq![], j)
            },
            Err(_) => (seq![], j),
        }
    }
}

/// Table entries from `j` on, up to `}` or the end; commas are skipped and the `n`-th
/// expression gets the key `n`.
pub open spec fn table_entries_at(ts: Seq<Tok>, j: int, n: nat) -> Parsed<Seq<(Expr, Expr)>>
    decreases ts.len() - j, 8nat,
{
    if j < 0 || j >= ts.len() || ts[j] == Tok::RightBracket {
        Ok((seq![], j))
    } else if ts[j] == Tok::Comma {
        table_entries_at(ts, j + 1, n)
    } else {
        match expression_at(ts, j, top_band()) {
            Ok((e, k)) => if j < k <= ts.len() {
                match table_entries_at(ts, k, n + 1) {
                    Ok((rest, m)) => Ok((seq![(Expr::Number(decimal(n)), e)] + rest, m)),
                    Err(e) => Err(e),
                }
            } else {
                Err(())
            },
            Err(e) => Err(e),
        }
    }
}

/// Parameter names from `j` on: names separated by commas.
pub open spec fn parameters_at(ts: Seq<Tok>, j: int) -> (Seq<Seq<char>>, int)
    decreases ts.len() - j,
{
    if 0 <= j < ts.len() {
        match ts[j] {
            Tok::Identifier(name) => if is_at(ts, j + 1, Tok::Comma) {
                let (rest, k) = parameters_at(ts, j + 2);
                (seq![name] + rest, k)
            } else {
                (seq![name], j + 1)
            },
            _ => (seq![], j),
        }
    } else {
        (seq![], j)
    }
}

/// The tokens that end a block.
#[derive(Clone, Copy)]
pub enum BlockEnd {
    /// `end`
    End,
    /// `end`, `elseif` or `else`
    Branch,
    /// `until`
    Until,
    /// only the end of the tokens
    Program,
}

pub open spec fn ends_block(kind: BlockEnd, t: Tok) -> bool {
    match kind {
        BlockEnd::End => t == Tok::End,
        BlockEnd::Branch => t == Tok::End || t == Tok::ElseIf || t == Tok::Else,
        BlockEnd::Until => t == Tok::Until,
        BlockEnd::Program => false,
    }
}

/// The statements from `i` up to (not including) a token that ends a block of `kind`.
pub open spec fn block_at(ts: Seq<Tok>, i: int, kind: BlockEnd) -> Parsed<Seq<Stmt>>
    decreases ts.len() - i, 11nat,
{
    if i < 0 || i >= ts.len() || ends_block(kind, ts[i]) {
        Ok((seq![], i))
    } else {
        match statement_at(ts, i) {
            Ok((s, j)) => if i < j <= ts.len() {
                match block_at(ts, j, kind) {
                    Ok((rest, k)) => Ok((seq![s] + rest, k)),
                    Err(e) => Err(e),
                }
            } else {
                Err(())
            },
            Err(e) => Err(e),
        }
    }
}

/// One statement at `i`, chosen by its first token.
pub open spec fn statement_at(ts: Seq<Tok>, i: int) -> Parsed<Stmt>
    decreases ts.len() - i, 10nat,
{
    if i < 0 || i >= ts.len() {
        Err(())
    } else {
        match ts[i] {
            Tok::Local => local_at(ts, i),
            Tok::Identifier(_) => if is_at(ts, i + 1, Tok::Assigment) {
                assignment_at(ts, i)
            } else {
                match expression_at(ts, i, top_band()) {
                    Ok((e, j)) => Ok((Stmt::Eval(e), j)),
                    Err(e) => Err(e),
                }
            },
            Tok::If => if_at(ts, i),
            Tok::While => while_at(ts, i),
            Tok::For => for_at(ts, i),
            Tok::Function => function_at(ts, i),
            Tok::Return => match expression_at(ts, i + 1, top_band()) {
                Ok((e, j)) => Ok((Stmt::Return(e), j)),
                Err(e) => Err(e),
            },
            Tok::Repeat => repeat_at(ts, i),
            _ => Err(()),
        }
    }
}

/// `local name = e`, with `local` at `i`.
pub open spec fn local_at(ts: Seq<Tok>, i: int) -> Parsed<Stmt>
    decreases ts.len() - i, 9nat,
{
    if 0 <= i && i + 2 < ts.len() && ts[i + 1] is Identifier && ts[i + 2] == Tok::Assigment {
        match expression_at(ts, i + 3, top_band()) {
            Ok((e, j)) => Ok((Stmt::Local(ts[i + 1]->Identifier_0, e), j)),
            Err(e) => Err(e),
        }
    } else {
        Err(())
    }
}

/// `name = e`, with the name at `i`.
pub open spec fn assignment_at(ts: Seq<Tok>, i: int) -> Parsed<Stmt>
    decreases ts.len() - i, 9nat,
{
    if 0 <= i && i + 1 < ts.len() && ts[i] is Identifier && ts[i + 1] == Tok::Assigment {
        match expression_at(ts, i + 2, top_band()) {
            Ok((e, j)) => Ok((Stmt::Assign(ts[i]->Identifier_0, e), j)),
            Err(e) => Err(e),
        }
    } else {
        Err(())
    }
}

/// `while c do block end`, with `while` at `i`.
pub open spec fn while_at(ts: Seq<Tok>, i: int) -> Parsed<Stmt>
    decreases ts.len() - i, 9nat,
{
    if i < 0 || i >= ts.len() {
        Err(())
    } else {
        match expression_at(ts, i + 1, top_band()) {
            Ok((c, j)) => if i + 1 < j <= ts.len() && is_at(ts, j, Tok::Do) {
                match block_at(ts, j + 1, BlockEnd::End) {
                    Ok((b, k)) => if is_at(ts, k, Tok::End) {
                        Ok((Stmt::While(c, b), k + 1))
                    } else {
                        Err(())
                    },
                    Err(e) => Err(e),
                }
            } else {
                Err(())
            },
            Err(e) => Err(e),
        }
    }
}

/// `repeat block until c`, with `repeat` at `i`.
pub open spec fn repeat_at(ts: Seq<Tok>, i: int) -> Parsed<Stmt>
    decreases ts.len() - i, 9nat,
{
    if i < 0 || i >= ts.len() {
        Err(())
    } else {
        match block_at(ts, i + 1, BlockEnd::Until) {
            Ok((b, j)) => if i + 1 <= j && is_at(ts, j, Tok::Until) {
                match expression_at(ts, j + 1, top_band()) {
                    Ok((c, k)) => Ok((Stmt::Repeat(b, c), k)),
                    Err(e) => Err(e),
                }
            } else {
                Err(())
            },
            Err(e) => Err(e),
        }
    }
}

/// The literal `1`, the step of a `for` loop that names none.
pub open spec fn unit_step() -> Expr {
    Expr::Number(seq!['1'])
}

/// The optional `, step` of a `for` loop at `k`, and the position after it.
pub open spec fn step_at(ts: Seq<Tok>, k: int) -> Parsed<Expr>
    decreases ts.len() - k, 9nat,
{
    if is_at(ts, k, Tok::Comma) {
        expression_at(ts, k + 1, top_band())
    } else {
        Ok((unit_step(), k))
    }
}

/// `for name = start, end (, step)? do block end`, with `for` at `i`.
pub open spec fn for_at(ts: Seq<Tok>, i: int) -> Parsed<Stmt>
    decreases ts.len() - i, 9nat,
{
    if 0 <= i && i + 2 < ts.len() && ts[i + 1] is Identifier && ts[i + 2] == Tok::Assigment {
        let name = ts[i + 1]->Identifier_0;
        match expression_at(ts, i + 3, top_band()) {
            Ok((start, j)) => if i + 3 < j <= ts.len() && is_at(ts, j, Tok::Comma) {
                match expression_at(ts, j + 1, top_band()) {
                    Ok((end, k)) => if j + 1 < k <= ts.len() {
                        match step_at(ts, k) {
                            Ok((step, m)) => if k <= m <= ts.len() && is_at(ts, m, Tok::Do) {
                                match block_at(ts, m + 1, BlockEnd::End) {
                                    Ok((b, n)) => if is_at(ts, n, Tok::End) {
                                        Ok((Stmt::For(name, start, end, step, b), n + 1))
                                    } else {
                                        Err(())
                                    },
                                    Err(e) => Err(e),
                                }
                            } else {
                                Err(())
                            },
                            Err(e) => Err(e),
                        }
                    } else {
                        Err(())
                    },
                    Err(e) => Err(e),
                }
            } else {
                Err(())
            },
            Err(e) => Err(e),
        }
    } else {
        Err(())
    }
}

/// `function name(params) block end`, with `function` at `i`.
pub open spec fn function_at(ts: Seq<Tok>, i: int) -> Parsed<Stmt>
    decreases ts.len() - i, 9nat,
{
    if 0 <= i && i + 2 < ts.len() && ts[i + 1] is Identifier && ts[i + 2] == Tok::LeftParen {
        let (params, j) = parameters_at(ts, i + 3);
        if i + 3 <= j && is_at(ts, j, Tok::RightParen) {
            match block_at(ts, j + 1, BlockEnd::End) {
                Ok((b, k)) => if is_at(ts, k, Tok::End) {
                    Ok((Stmt::Function(ts[i + 1]->Identifier_0, params, b), k + 1))
                } else {
                    Err(())
                },
                Err(e) => Err(e),
            }
        } else {
            Err(())
        }
    } else {
        Err(())
    }
}

/// The `elseif c then block` branches from `k` on.
pub open spec fn branches_at(ts: Seq<Tok>, k: int) -> Parsed<Seq<(Expr, Seq<Stmt>)>>
    decreases ts.len() - k, 9nat,
{
    if k >= 0 && is_at(ts, k, Tok::ElseIf) {
        match expression_at(ts, k + 1, top_band()) {
            Ok((c, j)) => if k + 1 < j <= ts.len() && is_at(ts, j, Tok::Then) {
                match block_at(ts, j + 1, BlockEnd::Branch) {
                    Ok((b, m)) => if j + 1 <= m <= ts.len() {
                        match branches_at(ts, m) {
                            Ok((rest, n)) => Ok((seq![(c, b)] + rest, n)),
                            Err(e) => Err(e),
                        }
                    } else {
                        Err(())
                    },
                    Err(e) => Err(e),
                }
            } else {
                Err(())
            },
            Err(e) => Err(e),
        }
    } else {
        Ok((seq![], k))
    }
}

/// The optional `else block` at `m`, and the position after it.
pub open spec fn else_at(ts: Seq<Tok>, m: int) -> Parsed<Option<Seq<Stmt>>>
    decreases ts.len() - m, 9nat,
{
    if m >= 0 && is_at(ts, m, Tok::Else) {
        match block_at(ts, m + 1, BlockEnd::End) {
            Ok((b, n)) => Ok((Some(b), n)),
            Err(e) => Err(e),
        }
    } else {
        Ok((None, m))
    }
}

/// `if c then block (elseif c then block)* (else block)? end`, with `if` at `i`.
pub open spec fn if_at(ts: Seq<Tok>, i: int) -> Parsed<Stmt>
    decreases ts.len() - i, 9nat,
{
    if i < 0 || i >= ts.len() {
        Err(())
    } else {
        match expression_at(ts, i + 1, top_band()) {
            Ok((c, j)) => if i + 1 < j <= ts.len() && is_at(ts, j, Tok::Then) {
                match block_at(ts, j + 1, BlockEnd::Branch) {
                    Ok((b, k)) => if j + 1 <= k <= ts.len() {
                        match branches_at(ts, k) {
                            Ok((branches, m)) => if k <= m <= ts.len() {
                                match else_at(ts, m) {
                                    Ok((otherwise, n)) => if is_at(ts, n, Tok::End) {
                                        Ok((Stmt::If(c, b, branches, otherwise), n + 1))
                                    } else {
                                        Err(())
                                    },
                                    Err(e) => Err(e),
                                }
                            } else {
                                Err(())
                            },
                            Err(e) => Err(e),
                        }
                    } else {
                        Err(())
                    },
                    Err(e) => Err(e),
                }
            } else {
                Err(())
            },
            Err(e) => Err(e),
        }
    }
}

/// The statements of a whole program.
pub open spec fn program_of(ts: Seq<Tok>) -> Result<Seq<Stmt>, ()> {
    match block_at(ts, 0, BlockEnd::Program) {
        Ok((b, _)) => Ok(b),
        Err(e) => Err(e),
    }
}

} // verus!
