use vstd::prelude::*;

verus! {

/// The binary operators of the language.
#[derive(Debug, PartialEq, Eq, Clone, Copy)]
pub enum BinaryOperator {
    Add,
    Subtract,
    Multiply,
    Divide,
    Concat,
    Equal,
    NotEqual,
    Less,
    LessEqual,
    Greater,
    GreaterEqual,
}

/// An expression; each node owns its children.
#[derive(Debug, PartialEq)]
pub enum Expression {
    /// A numeral as written in the source.
    NumberLiteral(String),
    BooleanLiteral(bool),
    StringLiteral(String),
    /// Key and value expressions, in the order in which they are evaluated.
    TableLiteral(Vec<(Expression, Expression)>),
    NilLiteral,
    IdentifierExpression(String),
    BinaryExpression(Box<Expression>, BinaryOperator, Box<Expression>),
    FunctionCall(String, Vec<Expression>),
    IndexOperator(Box<Expression>, Box<Expression>),
}

/// A statement.
#[derive(Debug, PartialEq)]
pub enum Statement {
    LocalVariableDeclaration(String, Box<Expression>),
    AssigmentStatement(String, Box<Expression>),
    WhileLoop {
        loop_condition: Box<Expression>,
        code_block: Vec<Statement>,
    },
    ForLoop {
        iterator_identifier: String,
        starting_value: Box<Expression>,
        ending_value: Box<Expression>,
        step_value: Box<Expression>,
        code_block: Vec<Statement>,
    },
    RepeatUntilLoop {
        code_block: Vec<Statement>,
        loop_condition: Box<Expression>,
    },
    IfStatement {
        basic_condition: Box<Expression>,
        code_block: Vec<Statement>,
        elseif_statements: Vec<(Box<Expression>, Vec<Statement>)>,
        else_block: Option<Vec<Statement>>,
    },
    ExpressionStatement(Box<Expression>),
    FunctionDeclaration {
        function_name: String,
        function_arguments: Vec<String>,
        function_body: Vec<Statement>,
    },
    ReturnStatement(Box<Expression>),
}

/// Mathematical model of an expression.
pub ghost enum Expr {
    Number(Seq<char>),
    Boolean(bool),
    Str(Seq<char>),
    Table(Seq<(Expr, Expr)>),
    Nil,
    Ident(Seq<char>),
    Binary(Box<Expr>, BinaryOperator, Box<Expr>),
    Call(Seq<char>, Seq<Expr>),
    Index(Box<Expr>, Box<Expr>),
}

/// Mathematical model of a statement.
pub ghost enum Stmt {
    Local(Seq<char>, Expr),
    Assign(Seq<char>, Expr),
    While(Expr, Seq<Stmt>),
    For(Seq<char>, Expr, Expr, Expr, Seq<Stmt>),
    Repeat(Seq<Stmt>, Expr),
    If(Expr, Seq<Stmt>, Seq<(Expr, Seq<Stmt>)>, Option<Seq<Stmt>>),
    Eval(Expr),
    Function(Seq<char>, Seq<Seq<char>>, Seq<Stmt>),
    Return(Expr),
}

pub open spec fn expr_model(e: Expression) -> Expr
    decreases e,
{
    match e {
        Expression::NumberLiteral(t) => Expr::Number(t@),
        Expression::BooleanLiteral(b) => Expr::Boolean(b),
        Expression::StringLiteral(s) => Expr::Str(s@),
        Expression::TableLiteral(entries) => Expr::Table(entries_model(entries@)),
        Expression::NilLiteral => Expr::Nil,
        Expression::IdentifierExpression(n) => Expr::Ident(n@),
        Expression::BinaryExpression(l, op, r) => Expr::Binary(Box::new(expr_model(*l)), op, Box::new(expr_model(*r))),
        Expression::FunctionCall(n, args) => Expr::Call(n@, exprs_model(args@)),
        Expression::IndexOperator(t, k) => Expr::Index(Box::new(expr_model(*t)), Box::new(expr_model(*k))),
    }
}

pub open spec fn exprs_model(s: Seq<Expression>) -> Seq<Expr>
    decreases s,
{
    if s.len() == 0 {
        seq![]
    } else {
        exprs_model(s.drop_last()).push(expr_model(s.last()))
    }
}

pub open spec fn entries_model(s: Seq<(Expression, Expression)>) -> Seq<(Expr, Expr)>
    decreases s,
{
    if s.len() == 0 {
        seq![]
    } else {
        entries_model(s.drop_last()).push((expr_model(s.last().0), expr_model(s.last().1)))
    }
}

pub open spec fn names_model(s: Seq<String>) -> Seq<Seq<char>> {
    s.map_values(|n: String| n@)
}

pub open spec fn stmt_model(s: Statement) -> Stmt
    decreases s,
{
    match s {
        Statement::LocalVariableDeclaration(n, e) => Stmt::Local(n@, expr_model(*e)),
        Statement::AssigmentStatement(n, e) => Stmt::Assign(n@, expr_model(*e)),
        Statement::WhileLoop { loop_condition, code_block } => Stmt::While(expr_model(*loop_condition), block_model(code_block@)),
        Statement::ForLoop { iterator_identifier, starting_value, ending_value, step_value, code_block } => Stmt::For(
            iterator_identifier@,
            expr_model(*starting_value),
            expr_model(*ending_value),
            expr_model(*step_value),
            block_model(code_block@),
        ),
        Statement::RepeatUntilLoop { code_block, loop_condition } => Stmt::Repeat(block_model(code_block@), expr_model(*loop_condition)),
        Statement::IfStatement { basic_condition, code_block, elseif_statements, else_block } => Stmt::If(
            expr_model(*basic_condition),
            block_model(code_block@),
            branches_model(elseif_statements@),
            match else_block {
                Some(b) => Some(block_model(b@)),
                None => None,
            },
        ),
        Statement::ExpressionStatement(e) => Stmt::Eval(expr_model(*e)),
        Statement::FunctionDeclaration { function_name, function_arguments, function_body } => Stmt::Function(
            function_name@,
            names_model(function_arguments@),
            block_model(function_body@),
        ),
        Statement::ReturnStatement(e) => Stmt::Return(expr_model(*e)),
    }
}

pub open spec fn block_model(s: Seq<Statement>) -> Seq<Stmt>
    decreases s,
{
    if s.len() == 0 {
        seq![]
    } else {
        block_model(s.drop_last()).push(stmt_model(s.last()))
    }
}

pub open spec fn branches_model(s: Seq<(Box<Expression>, Vec<Statement>)>) -> Seq<(Expr, Seq<Stmt>)>
    decreases s,
{
    if s.len() == 0 {
        seq![]
    } else {
        branches_model(s.drop_last()).push((expr_model(*s.last().0), block_model(s.last().1@)))
    }
}

pub proof fn lemma_exprs_push(s: Seq<Expression>, e: Expression)
    ensures
        exprs_model(s.push(e)) == exprs_model(s).push(expr_model(e)),
{
    assert(s.push(e).drop_last() =~= s);
}

pub proof fn lemma_entries_push(s: Seq<(Expression, Expression)>, e: (Expression, Expression))
    ensures
        entries_model(s.push(e)) == entries_model(s).push((expr_model(e.0), expr_model(e.1))),
{
    assert(s.push(e).drop_last() =~= s);
}

pub proof fn lemma_block_push(s: Seq<Statement>, t: Statement)
    ensures
        block_model(s.push(t)) == block_model(s).push(stmt_model(t)),
{
    assert(s.push(t).drop_last() =~= s);
}

pub proof fn lemma_branches_push(s: Seq<(Box<Expression>, Vec<Statement>)>, b: (Box<Expression>, Vec<Statement>))
    ensures
        branches_model(s.push(b)) == branches_model(s).push((expr_model(*b.0), block_model(b.1@))),
{
    assert(s.push(b).drop_last() =~= s);
}

pub proof fn lemma_names_push(s: Seq<String>, n: String)
    ensures
        names_model(s.push(n)) == names_model(s).push(n@),
{
    assert(names_model(s.push(n)) =~= names_model(s).push(n@));
}

pub proof fn lemma_exprs_index(s: Seq<Expression>)
    ensures
        exprs_model(s).len() == s.len(),
        forall|i: int| 0 <= i < s.len() ==> #[trigger] exprs_model(s)[i] == expr_model(s[i]),
    decreases s.len(),
{
    if s.len() > 0 {
        lemma_exprs_index(s.drop_last());
    }
}

pub proof fn lemma_entries_index(s: Seq<(Expression, Expression)>)
    ensures
        entries_model(s).len() == s.len(),
        forall|i: int| 0 <= i < s.len() ==> #[trigger] entries_model(s)[i] == (expr_model(s[i].0), expr_model(s[i].1)),
    decreases s.len(),
{
    if s.len() > 0 {
        lemma_entries_index(s.drop_last());
    }
}

pub proof fn lemma_block_index(s: Seq<Statement>)
    ensures
        block_model(s).len() == s.len(),
        forall|i: int| 0 <= i < s.len() ==> #[trigger] block_model(s)[i] == stmt_model(s[i]),
    decreases s.len(),
{
    if s.len() > 0 {
        lemma_block_index(s.drop_last());
    }
}

pub proof fn lemma_branches_index(s: Seq<(Box<Expression>, Vec<Statement>)>)
    ensures
        branches_model(s).len() == s.len(),
        forall|i: int| 0 <= i < s.len() ==> #[trigger] branches_model(s)[i] == (expr_model(*s[i].0), block_model(s[i].1@)),
    decreases s.len(),
{
    if s.len() > 0 {
        lemma_branches_index(s.drop_last());
    }
}

} // verus!
