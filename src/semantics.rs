use vstd::prelude::*;
use crate::ast::{BinaryOperator, Expr, Stmt};
use crate::numeric::{ArithOp, NumberModel, number_equal, number_less, number_less_equal};

verus! {

/// The functions that the host provides to programs.
#[derive(Debug, Clone, Copy, PartialEq, Eq)]
pub enum Native {
    /// Writes its arguments, each followed by a tab, then a newline.
    Print,
}

/// Mathematical model of a runtime value. A table is named by its place among the tables
/// that the program has built.
pub ghost enum Val {
    Number(u64),
    Boolean(bool),
    Str(Seq<char>),
    Nil,
    Native(Native),
    Function(Seq<Seq<char>>, Seq<Stmt>),
    Table(nat),
}

/// One scope frame: bindings of names to values.
pub type Frame = Seq<(Seq<char>, Val)>;

/// Mathematical model of the interpreter's state: the scope stack (global scope first), the
/// tables built so far, and the text written by `print`.
pub ghost struct Store {
    pub scopes: Seq<Frame>,
    pub tables: Seq<Seq<(Val, Val)>>,
    pub output: Seq<char>,
}

/// How a statement completed: normally, or by `return` with a value.
pub ghost enum Flow {
    Normal,
    Return(Val),
}

/// The place of the binding of `name` in `f` at or after `i`, or -1.
pub open spec fn index_in(f: Frame, name: Seq<char>, i: int) -> int
    decreases f.len() - i,
{
    if i < 0 || i >= f.len() {
        -1
    } else if f[i].0 == name {
        i
    } else {
        index_in(f, name, i + 1)
    }
}

/// The frame `f` with `name` bound to `v`: the binding is replaced, or added at the end.
pub open spec fn frame_set(f: Frame, name: Seq<char>, v: Val) -> Frame {
    let i = index_in(f, name, 0);
    if i >= 0 { f.update(i, (name, v)) } else { f.push((name, v)) }
}

/// The depth of the topmost frame at or below `d` that binds `name`, or -1.
pub open spec fn holder_from(scopes: Seq<Frame>, name: Seq<char>, d: int) -> int
    decreases d + 1,
{
    if d < 0 || d >= scopes.len() {
        -1
    } else if index_in(scopes[d], name, 0) >= 0 {
        d
    } else {
        holder_from(scopes, name, d - 1)
    }
}

pub open spec fn holder(scopes: Seq<Frame>, name: Seq<char>) -> int {
    holder_from(scopes, name, scopes.len() - 1)
}

/// The value that `name` has in the topmost frame that binds it.
pub open spec fn lookup(scopes: Seq<Frame>, name: Seq<char>) -> Option<Val> {
    let d = holder(scopes, name);
    if d >= 0 {
        Some(scopes[d][index_in(scopes[d], name, 0)].1)
    } else {
        None
    }
}

/// A `local` binding: in the topmost frame.
pub open spec fn declare(scopes: Seq<Frame>, name: Seq<char>, v: Val) -> Seq<Frame> {
    if scopes.len() == 0 {
        scopes
    } else {
        scopes.update(scopes.len() - 1, frame_set(scopes.last(), name, v))
    }
}

/// An assignment: in the topmost frame that binds `name`, else in the global frame.
pub open spec fn assign(scopes: Seq<Frame>, name: Seq<char>, v: Val) -> Seq<Frame> {
    let d = holder(scopes, name);
    if d >= 0 {
        scopes.update(d, frame_set(scopes[d], name, v))
    } else if scopes.len() > 0 {
        scopes.update(0, frame_set(scopes[0], name, v))
    } else {
        scopes
    }
}

pub open spec fn with_scopes(st: Store, scopes: Seq<Frame>) -> Store {
    Store { scopes, ..st }
}

pub open spec fn push_scope(st: Store) -> Store {
    with_scopes(st, st.scopes.push(seq![]))
}

pub open spec fn pop_scope(st: Store) -> Store {
    with_scopes(st, st.scopes.drop_last())
}

/// `Nil` and `false` are false; every other value is true.
pub open spec fn truthy(v: Val) -> bool {
    !(v is Nil || v == Val::Boolean(false))
}

/// Whether two values are the same table key. Functions are never the same key.
pub open spec fn same_key(a: Val, b: Val) -> bool {
    a == b && !(a is Function)
}

/// The place of `k` among the keys of `t` at or after `i`, or -1.
pub open spec fn key_index(t: Seq<(Val, Val)>, k: Val, i: int) -> int
    decreases t.len() - i,
{
    if i < 0 || i >= t.len() {
        -1
    } else if same_key(t[i].0, k) {
        i
    } else {
        key_index(t, k, i + 1)
    }
}

pub open spec fn table_insert(t: Seq<(Val, Val)>, k: Val, v: Val) -> Seq<(Val, Val)> {
    let i = key_index(t, k, 0);
    if i >= 0 { t.update(i, (k, v)) } else { t.push((k, v)) }
}

pub open spec fn table_get(t: Seq<(Val, Val)>, k: Val) -> Val {
    let i = key_index(t, k, 0);
    if i >= 0 { t[i].1 } else { Val::Nil }
}

pub open spec fn arith_of(op: BinaryOperator) -> Option<ArithOp> {
    match op {
        BinaryOperator::Add => Some(ArithOp::Add),
        BinaryOperator::Subtract => Some(ArithOp::Subtract),
        BinaryOperator::Multiply => Some(ArithOp::Multiply),
        BinaryOperator::Divide => Some(ArithOp::Divide),
        _ => None,
    }
}

/// The value of `a op b`, or `Err` where the operator does not apply to the operands.
pub open spec fn binary_value(op: BinaryOperator, a: Val, b: Val, m: NumberModel) -> Result<Val, ()> {
    match (a, b) {
        (Val::Number(x), Val::Number(y)) => match arith_of(op) {
            Some(aop) => Ok(Val::Number((m.arith)(aop, x, y))),
            None => match op {
                BinaryOperator::Less => Ok(Val::Boolean(number_less(x, y))),
                BinaryOperator::Greater => Ok(Val::Boolean(number_less(y, x))),
                BinaryOperator::LessEqual => Ok(Val::Boolean(number_less_equal(x, y))),
                BinaryOperator::GreaterEqual => Ok(Val::Boolean(number_less_equal(y, x))),
                BinaryOperator::Equal => Ok(Val::Boolean(number_equal(x, y))),
                BinaryOperator::NotEqual => Ok(Val::Boolean(!number_equal(x, y))),
                _ => Err(()),
            },
        },
        (Val::Str(x), Val::Str(y)) => match op {
            BinaryOperator::Concat => Ok(Val::Str(x + y)),
            BinaryOperator::Equal => Ok(Val::Boolean(x == y)),
            BinaryOperator::NotEqual => Ok(Val::Boolean(x != y)),
            _ => Err(()),
        },
        (Val::Boolean(x), Val::Boolean(y)) => match op {
            BinaryOperator::Equal => Ok(Val::Boolean(x == y)),
            BinaryOperator::NotEqual => Ok(Val::Boolean(x != y)),
            _ => Err(()),
        },
        _ => Err(()),
    }
}

/// The text that `print` writes for one argument, or `None` for a function or a table.
pub open spec fn printed(v: Val, m: NumberModel) -> Option<Seq<char>> {
    match v {
        Val::Number(n) => Some((m.show)(n)),
        Val::Boolean(true) => Some(seq!['t', 'r', 'u', 'e']),
        Val::Boolean(false) => Some(seq!['f', 'a', 'l', 's', 'e']),
        Val::Str(s) => Some(s),
        Val::Nil => Some(seq!['n', 'i', 'l']),
        _ => None,
    }
}

/// The output after `print` has written `args[i..]` onto `out`, and whether every argument
/// could be printed; printing stops at the first that cannot.
pub open spec fn print_from(args: Seq<Val>, i: int, out: Seq<char>, m: NumberModel) -> (Seq<char>, bool)
    decreases args.len() - i,
{
    if i < 0 || i >= args.len() {
        (out.push('\n'), true)
    } else {
        match printed(args[i], m) {
            Some(t) => print_from(args, i + 1, out + t.push('\t'), m),
            None => (out, false),
        }
    }
}

/// A call of a native function.
pub open spec fn call_native(f: Native, args: Seq<Val>, st: Store, m: NumberModel) -> (Store, Result<Val, ()>) {
    match f {
        Native::Print => {
            let (out, ok) = print_from(args, 0, st.output, m);
            (Store { output: out, ..st }, if ok { Ok(Val::Nil) } else { Err(()) })
        },
    }
}

/// The store with `params[i..]` declared as `args[i..]` in its topmost frame.
pub open spec fn bind_from(scopes: Seq<Frame>, params: Seq<Seq<char>>, args: Seq<Val>, i: int) -> Seq<Frame>
    decreases params.len() - i,
{
    if i < 0 || i >= params.len() || i >= args.len() {
        scopes
    } else {
        bind_from(declare(scopes, params[i], args[i]), params, args, i + 1)
    }
}

} // verus!

verus! {

/// The value of `e` in `st`, and the store after evaluating it; `Err` on a runtime error or
/// when `fuel`, a bound on the depth of the evaluation, runs out.
pub open spec fn eval(fuel: nat, e: Expr, st: Store, m: NumberModel) -> (Store, Result<Val, ()>)
    decreases fuel, 0nat,
{
    if fuel == 0 {
        (st, Err(()))
    } else {
        let f = (fuel - 1) as nat;
        match e {
            Expr::Number(t) => (st, Ok(Val::Number((m.parse)(t)))),
            Expr::Boolean(b) => (st, Ok(Val::Boolean(b))),
            Expr::Str(s) => (st, Ok(Val::Str(s))),
            Expr::Nil => (st, Ok(Val::Nil)),
            Expr::Ident(name) => (st, Ok(match lookup(st.scopes, name) {
                Some(v) => v,
                None => Val::Nil,
            })),
            Expr::Table(entries) => {
                let (s1, r) = eval_entries(f, entries, 0, seq![], st, m);
                match r {
                    Ok(t) => (Store { tables: s1.tables.push(t), ..s1 }, Ok(Val::Table(s1.tables.len()))),
                    Err(e) => (s1, Err(e)),
                }
            },
            Expr::Binary(l, op, r) => {
                let (s1, lv) = eval(f, *l, st, m);
                match lv {
                    Ok(a) => {
                        let (s2, rv) = eval(f, *r, s1, m);
                        match rv {
                            Ok(b) => (s2, binary_value(op, a, b, m)),
                            Err(e) => (s2, Err(e)),
                        }
                    },
                    Err(e) => (s1, Err(e)),
                }
            },
            Expr::Call(name, args) => {
                let (s1, r) = eval_list(f, args, 0, seq![], st, m);
                match r {
                    Ok(vals) => match lookup(s1.scopes, name) {
                        Some(Val::Native(n)) => call_native(n, vals, s1, m),
                        Some(Val::Function(params, body)) => call_function(f, params, body, vals, s1, m),
                        _ => (s1, Err(())),
                    },
                    Err(e) => (s1, Err(e)),
                }
            },
            Expr::Index(t, k) => {
                let (s1, tv) = eval(f, *t, st, m);
                match tv {
                    Ok(tab) => {
                        let (s2, kv) = eval(f, *k, s1, m);
                        match kv {
                            Ok(key) => match tab {
                                Val::Table(id) => if id < s2.tables.len() {
                                    (s2, Ok(table_get(s2.tables[id as int], key)))
                                } else {
                                    (s2, Err(()))
                                },
                                Val::Nil => (s2, Ok(Val::Nil)),
                                _ => (s2, Err(())),
                            },
                            Err(e) => (s2, Err(e)),
                        }
                    },
                    Err(e) => (s1, Err(e)),
                }
            },
        }
    }
}

/// The values of `es[i..]`, left to right, after the values `done`.
pub open spec fn eval_list(fuel: nat, es: Seq<Expr>, i: int, done: Seq<Val>, st: Store, m: NumberModel) -> (Store, Result<Seq<Val>, ()>)
    decreases fuel, 1nat,
{
    if fuel == 0 {
        (st, Err(()))
    } else if i < 0 || i >= es.len() {
        (st, Ok(done))
    } else {
        let f = (fuel - 1) as nat;
        let (s1, r) = eval(f, es[i], st, m);
        match r {
            Ok(v) => eval_list(f, es, i + 1, done.push(v), s1, m),
            Err(e) => (s1, Err(e)),
        }
    }
}

/// The table built from the entries `es[i..]` (each key, then its value) added to `done`.
pub open spec fn eval_entries(fuel: nat, es: Seq<(Expr, Expr)>, i: int, done: Seq<(Val, Val)>, st: Store, m: NumberModel) -> (Store, Result<Seq<(Val, Val)>, ()>)
    decreases fuel, 1nat,
{
    if fuel == 0 {
        (st, Err(()))
    } else if i < 0 || i >= es.len() {
        (st, Ok(done))
    } else {
        let f = (fuel - 1) as nat;
        let (s1, kr) = eval(f, es[i].0, st, m);
        match kr {
            Ok(k) => {
                let (s2, vr) = eval(f, es[i].1, s1, m);
                match vr {
                    Ok(v) => eval_entries(f, es, i + 1, table_insert(done, k, v), s2, m),
                    Err(e) => (s2, Err(e)),
                }
            },
            Err(e) => (s1, Err(e)),
        }
    }
}

/// A call of a declared function: a new scope holds the parameters, the body runs in it, and
/// the call yields the returned value, or `Nil` where the body returns none.
pub open spec fn call_function(fuel: nat, params: Seq<Seq<char>>, body: Seq<Stmt>, args: Seq<Val>, st: Store, m: NumberModel) -> (Store, Result<Val, ()>)
    decreases fuel, 2nat,
{
    let s1 = push_scope(st);
    if params.len() != args.len() {
        (pop_scope(s1), Err(()))
    } else {
        let s2 = with_scopes(s1, bind_from(s1.scopes, params, args, 0));
        let (s3, r) = exec_block(fuel, body, 0, s2, m);
        (pop_scope(s3), match r {
            Ok(Flow::Return(v)) => Ok(v),
            Ok(Flow::Normal) => Ok(Val::Nil),
            Err(e) => Err(e),
        })
    }
}

/// The statements `b[i..]` in order, up to the first that returns.
pub open spec fn exec_block(fuel: nat, b: Seq<Stmt>, i: int, st: Store, m: NumberModel) -> (Store, Result<Flow, ()>)
    decreases fuel, 1nat,
{
    if fuel == 0 {
        (st, Err(()))
    } else if i < 0 || i >= b.len() {
        (st, Ok(Flow::Normal))
    } else {
        let f = (fuel - 1) as nat;
        let (s1, r) = exec(f, b[i], st, m);
        match r {
            Ok(Flow::Normal) => exec_block(f, b, i + 1, s1, m),
            other => (s1, other),
        }
    }
}

/// The effect of one statement.
pub open spec fn exec(fuel: nat, s: Stmt, st: Store, m: NumberModel) -> (Store, Result<Flow, ()>)
    decreases fuel, 0nat,
{
    if fuel == 0 {
        (st, Err(()))
    } else {
        let f = (fuel - 1) as nat;
        match s {
            Stmt::Local(name, e) => {
                let (s1, r) = eval(f, e, st, m);
                match r {
                    Ok(v) => (with_scopes(s1, declare(s1.scopes, name, v)), Ok(Flow::Normal)),
                    Err(e) => (s1, Err(e)),
                }
            },
            Stmt::Assign(name, e) => {
                let (s1, r) = eval(f, e, st, m);
                match r {
                    Ok(v) => (with_scopes(s1, assign(s1.scopes, name, v)), Ok(Flow::Normal)),
                    Err(e) => (s1, Err(e)),
                }
            },
            Stmt::Eval(e) => {
                let (s1, r) = eval(f, e, st, m);
                match r {
                    Ok(_) => (s1, Ok(Flow::Normal)),
                    Err(e) => (s1, Err(e)),
                }
            },
            Stmt::Return(e) => {
                let (s1, r) = eval(f, e, st, m);
                match r {
                    Ok(v) => (s1, Ok(Flow::Return(v))),
                    Err(e) => (s1, Err(e)),
                }
            },
            Stmt::Function(name, params, body) => (
                with_scopes(st, declare(st.scopes, name, Val::Function(params, body))),
                Ok(Flow::Normal),
            ),
            Stmt::While(c, b) => {
                let (s1, r) = while_loop(f, c, b, push_scope(st), m);
                (pop_scope(s1), r)
            },
            Stmt::Repeat(b, c) => {
                let (s1, r) = repeat_loop(f, b, c, push_scope(st), m);
                (pop_scope(s1), r)
            },
            Stmt::For(name, start, end, step, b) => {
                let (s1, r) = for_start(f, name, start, end, step, b, push_scope(st), m);
                (pop_scope(s1), r)
            },
            Stmt::If(c, b, branches, otherwise) => {
                let (s1, r) = if_chain(f, c, b, branches, otherwise, push_scope(st), m);
                (pop_scope(s1), r)
            },
        }
    }
}

/// A `while` loop, in its scope: the condition, then the body, while the condition is true.
pub open spec fn while_loop(fuel: nat, c: Expr, b: Seq<Stmt>, st: Store, m: NumberModel) -> (Store, Result<Flow, ()>)
    decreases fuel, 0nat,
{
    if fuel == 0 {
        (st, Err(()))
    } else {
        let f = (fuel - 1) as nat;
        let (s1, cr) = eval(f, c, st, m);
        match cr {
            Ok(cv) => if truthy(cv) {
                let (s2, r) = exec_block(f, b, 0, s1, m);
                match r {
                    Ok(Flow::Normal) => while_loop(f, c, b, s2, m),
                    other => (s2, other),
                }
            } else {
                (s1, Ok(Flow::Normal))
            },
            Err(e) => (s1, Err(e)),
        }
    }
}

/// A `repeat` loop, in its scope: the body, then the condition, until the condition is true.
pub open spec fn repeat_loop(fuel: nat, b: Seq<Stmt>, c: Expr, st: Store, m: NumberModel) -> (Store, Result<Flow, ()>)
    decreases fuel, 0nat,
{
    if fuel == 0 {
        (st, Err(()))
    } else {
        let f = (fuel - 1) as nat;
        let (s1, r) = exec_block(f, b, 0, st, m);
        match r {
            Ok(Flow::Normal) => {
                let (s2, cr) = eval(f, c, s1, m);
                match cr {
                    Ok(cv) => if truthy(cv) {
                        (s2, Ok(Flow::Normal))
                    } else {
                        repeat_loop(f, b, c, s2, m)
                    },
                    Err(e) => (s2, Err(e)),
                }
            },
            other => (s1, other),
        }
    }
}

/// A numeric `for` loop, in its scope: the start value is bound to the name and the step is
/// evaluated once, then the loop runs.
pub open spec fn for_start(fuel: nat, name: Seq<char>, start: Expr, end: Expr, step: Expr, b: Seq<Stmt>, st: Store, m: NumberModel) -> (Store, Result<Flow, ()>)
    decreases fuel, 1nat,
{
    let (s1, r) = eval(fuel, start, st, m);
    match r {
        Ok(v) => {
            let s2 = with_scopes(s1, declare(s1.scopes, name, v));
            let (s3, sr) = eval(fuel, step, s2, m);
            match sr {
                Ok(Val::Number(n)) => for_loop(fuel, name, end, n, b, s3, m),
                Ok(_) => (s3, Err(())),
                Err(e) => (s3, Err(e)),
            }
        },
        Err(e) => (s1, Err(e)),
    }
}

/// The iterations of a numeric `for` loop: while the iterator is `<=` the end value (which is
/// evaluated each time), the body runs and the step is added to the iterator.
pub open spec fn for_loop(fuel: nat, name: Seq<char>, end: Expr, step: u64, b: Seq<Stmt>, st: Store, m: NumberModel) -> (Store, Result<Flow, ()>)
    decreases fuel, 0nat,
{
    if fuel == 0 {
        (st, Err(()))
    } else {
        let f = (fuel - 1) as nat;
        let iv = match lookup(st.scopes, name) {
            Some(v) => v,
            None => Val::Nil,
        };
        let (s1, er) = eval(f, end, st, m);
        match er {
            Ok(ev) => match binary_value(BinaryOperator::LessEqual, iv, ev, m) {
                Ok(cv) => if truthy(cv) {
                    let (s2, r) = exec_block(f, b, 0, s1, m);
                    match r {
                        Ok(Flow::Normal) => match lookup(s2.scopes, name) {
                            Some(Val::Number(x)) => for_loop(
                                f,
                                name,
                                end,
                                step,
                                b,
                                with_scopes(s2, assign(s2.scopes, name, Val::Number((m.arith)(ArithOp::Add, x, step)))),
                                m,
                            ),
                            _ => (s2, Err(())),
                        },
                        other => (s2, other),
                    }
                } else {
                    (s1, Ok(Flow::Normal))
                },
                Err(e) => (s1, Err(e)),
            },
            Err(e) => (s1, Err(e)),
        }
    }
}

/// An `if` statement, in its scope: the first branch whose condition is true runs.
pub open spec fn if_chain(fuel: nat, c: Expr, b: Seq<Stmt>, branches: Seq<(Expr, Seq<Stmt>)>, otherwise: Option<Seq<Stmt>>, st: Store, m: NumberModel) -> (Store, Result<Flow, ()>)
    decreases fuel, 2nat,
{
    let (s1, cr) = eval(fuel, c, st, m);
    match cr {
        Ok(cv) => if truthy(cv) {
            exec_block(fuel, b, 0, s1, m)
        } else {
            else_chain(fuel, branches, 0, otherwise, s1, m)
        },
        Err(e) => (s1, Err(e)),
    }
}

/// The `elseif` branches from `i` on, then the `else` block.
pub open spec fn else_chain(fuel: nat, branches: Seq<(Expr, Seq<Stmt>)>, i: int, otherwise: Option<Seq<Stmt>>, st: Store, m: NumberModel) -> (Store, Result<Flow, ()>)
    decreases fuel, 0nat,
{
    if fuel == 0 {
        (st, Err(()))
    } else {
        let f = (fuel - 1) as nat;
        if i < 0 || i >= branches.len() {
            match otherwise {
                Some(b) => exec_block(f, b, 0, st, m),
                None => (st, Ok(Flow::Normal)),
            }
        } else {
            let (s1, cr) = eval(f, branches[i].0, st, m);
            match cr {
                Ok(cv) => if truthy(cv) {
                    exec_block(f, branches[i].1, 0, s1, m)
                } else {
                    else_chain(f, branches, i + 1, otherwise, s1, m)
                },
                Err(e) => (s1, Err(e)),
            }
        }
    }
}

/// A program's statements `p[i..]` at top level: a returned value is discarded and the next
/// statement runs; the first error stops the program.
pub open spec fn run_from(fuel: nat, p: Seq<Stmt>, i: int, st: Store, m: NumberModel) -> (Store, Result<(), ()>)
    decreases fuel,
{
    if fuel == 0 {
        (st, Err(()))
    } else if i < 0 || i >= p.len() {
        (st, Ok(()))
    } else {
        let f = (fuel - 1) as nat;
        let (s1, r) = exec(f, p[i], st, m);
        match r {
            Ok(_) => run_from(f, p, i + 1, s1, m),
            Err(e) => (s1, Err(e)),
        }
    }
}

} // verus!
