use vstd::prelude::*;
use crate::ast::{BinaryOperator, Expr, Statement, Stmt, block_model};
use crate::grammar::{band_tail, expression_at, primary_at, top_band};
use crate::numeric::NumberModel;
use crate::parser::parse_outcome;
use crate::semantics::{
    Flow, Frame, Store, Val, assign, call_function, declare, else_chain, eval, exec, exec_block,
    frame_set, holder, holder_from, if_chain, index_in, lookup, pop_scope, push_scope, repeat_loop,
    truthy, while_loop, with_scopes, bind_from, for_loop, for_start, binary_value,
};
use crate::token::{Lit, Tok};

verus! {

/// Parsing is a function of the source text: two parses of the same text from the same
/// position both succeed with the same statements, or both fail.
pub proof fn law_parse_is_deterministic(s: Seq<char>, p: int, r1: Result<Vec<Statement>, String>, r2: Result<Vec<Statement>, String>)
    requires
        parse_outcome(s, p, r1),
        parse_outcome(s, p, r2),
    ensures
        r1 is Ok <==> r2 is Ok,
        r1 is Ok && r2 is Ok ==> block_model(r1->Ok_0@) == block_model(r2->Ok_0@),
{
}

/// Multiplication binds tighter than addition: `a + b * c` is `a + (b * c)`.
pub proof fn law_precedence(a: Seq<char>, b: Seq<char>, c: Seq<char>)
    ensures
        ({
            let ts = seq![
                Tok::Literal(Lit::Number(a)),
                Tok::Plus,
                Tok::Literal(Lit::Number(b)),
                Tok::Asterisk,
                Tok::Literal(Lit::Number(c)),
            ];
            expression_at(ts, 0, top_band()) == Ok::<(Expr, int), ()>((
                Expr::Binary(
                    Box::new(Expr::Number(a)),
                    BinaryOperator::Add,
                    Box::new(Expr::Binary(Box::new(Expr::Number(b)), BinaryOperator::Multiply, Box::new(Expr::Number(c)))),
                ),
                5,
            ))
        }),
{
    let ts = seq![
        Tok::Literal(Lit::Number(a)),
        Tok::Plus,
        Tok::Literal(Lit::Number(b)),
        Tok::Asterisk,
        Tok::Literal(Lit::Number(c)),
    ];
    let na = Expr::Number(a);
    let nb = Expr::Number(b);
    let nc = Expr::Number(c);
    let bc = Expr::Binary(Box::new(nb), BinaryOperator::Multiply, Box::new(nc));
    let abc = Expr::Binary(Box::new(na), BinaryOperator::Add, Box::new(bc));
    assert(primary_at(ts, 0) == Ok::<(Expr, int), ()>((na, 1)));
    assert(expression_at(ts, 0, 0) == Ok::<(Expr, int), ()>((na, 1)));
    assert(band_tail(ts, 1, 1, na) == Ok::<(Expr, int), ()>((na, 1)));
    assert(expression_at(ts, 0, 1) == Ok::<(Expr, int), ()>((na, 1)));
    assert(primary_at(ts, 2) == Ok::<(Expr, int), ()>((nb, 3)));
    assert(expression_at(ts, 2, 0) == Ok::<(Expr, int), ()>((nb, 3)));
    assert(primary_at(ts, 4) == Ok::<(Expr, int), ()>((nc, 5)));
    assert(expression_at(ts, 4, 0) == Ok::<(Expr, int), ()>((nc, 5)));
    assert(band_tail(ts, 5, 1, bc) == Ok::<(Expr, int), ()>((bc, 5)));
    assert(band_tail(ts, 3, 1, nb) == Ok::<(Expr, int), ()>((bc, 5)));
    assert(expression_at(ts, 2, 1) == Ok::<(Expr, int), ()>((bc, 5)));
    assert(band_tail(ts, 5, 2, abc) == Ok::<(Expr, int), ()>((abc, 5)));
    assert(band_tail(ts, 1, 2, na) == Ok::<(Expr, int), ()>((abc, 5)));
    assert(expression_at(ts, 0, 2) == Ok::<(Expr, int), ()>((abc, 5)));
    assert(band_tail(ts, 5, 3, abc) == Ok::<(Expr, int), ()>((abc, 5)));
}

/// `nil` and `false` are false; every number (zero too), `true` and every string (the empty
/// one too) are true.
pub proof fn law_truthiness()
    ensures
        !truthy(Val::Nil),
        !truthy(Val::Boolean(false)),
        truthy(Val::Boolean(true)),
        forall|n: u64| #[trigger] truthy(Val::Number(n)),
        forall|s: Seq<char>| #[trigger] truthy(Val::Str(s)),
{
}

/// A call with as many arguments as parameters runs the body in a new scope holding the
/// parameters, and succeeds when the body does; any other count of arguments is an error.
pub proof fn law_arity(fuel: nat, params: Seq<Seq<char>>, body: Seq<Stmt>, args: Seq<Val>, st: Store, m: NumberModel)
    ensures
        params.len() != args.len() ==> call_function(fuel, params, body, args, st, m).1 is Err,
        params.len() == args.len() ==> ({
            let s1 = push_scope(st);
            let (s3, r) = exec_block(fuel, body, 0, with_scopes(s1, bind_from(s1.scopes, params, args, 0)), m);
            &&& call_function(fuel, params, body, args, st, m).0 == pop_scope(s3)
            &&& (r is Ok <==> call_function(fuel, params, body, args, st, m).1 is Ok)
        }),
{
}

/// `return e` completes with exactly the value of `e`.
pub proof fn law_return_yields_value(fuel: nat, e: Expr, st: Store, m: NumberModel)
    requires
        fuel > 0,
    ensures
        ({
            let (s1, r) = eval((fuel - 1) as nat, e, st, m);
            exec(fuel, Stmt::Return(e), st, m) == (s1, match r {
                Ok(v) => Ok(Flow::Return(v)),
                Err(x) => Err(x),
            })
        }),
{
}

/// A statement that returns ends its block: the block returns the same value, and no later
/// statement of it runs.
pub proof fn law_return_ends_block(fuel: nat, b: Seq<Stmt>, i: int, st: Store, m: NumberModel, s1: Store, v: Val)
    requires
        fuel > 0,
        0 <= i < b.len(),
        exec((fuel - 1) as nat, b[i], st, m) == (s1, Ok::<Flow, ()>(Flow::Return(v))),
    ensures
        exec_block(fuel, b, i, st, m) == (s1, Ok::<Flow, ()>(Flow::Return(v))),
{
}

/// A `while` loop whose body returns returns the same value, and stops there.
pub proof fn law_return_leaves_while(fuel: nat, c: Expr, b: Seq<Stmt>, st: Store, m: NumberModel, s1: Store, cv: Val, s2: Store, v: Val)
    requires
        fuel > 0,
        eval((fuel - 1) as nat, c, st, m) == (s1, Ok::<Val, ()>(cv)),
        truthy(cv),
        exec_block((fuel - 1) as nat, b, 0, s1, m) == (s2, Ok::<Flow, ()>(Flow::Return(v))),
    ensures
        while_loop(fuel, c, b, st, m) == (s2, Ok::<Flow, ()>(Flow::Return(v))),
{
}

/// A `repeat` loop whose body returns returns the same value, without evaluating its condition.
pub proof fn law_return_leaves_repeat(fuel: nat, b: Seq<Stmt>, c: Expr, st: Store, m: NumberModel, s1: Store, v: Val)
    requires
        fuel > 0,
        exec_block((fuel - 1) as nat, b, 0, st, m) == (s1, Ok::<Flow, ()>(Flow::Return(v))),
    ensures
        repeat_loop(fuel, b, c, st, m) == (s1, Ok::<Flow, ()>(Flow::Return(v))),
{
}

/// A numeric `for` loop whose body returns returns the same value, without stepping.
pub proof fn law_return_leaves_for(fuel: nat, name: Seq<char>, end: Expr, step: u64, b: Seq<Stmt>, st: Store, m: NumberModel, s1: Store, ev: Val, s2: Store, v: Val)
    requires
        fuel > 0,
        eval((fuel - 1) as nat, end, st, m) == (s1, Ok::<Val, ()>(ev)),
        binary_value(BinaryOperator::LessEqual, match lookup(st.scopes, name) {
            Some(x) => x,
            None => Val::Nil,
        }, ev, m) == Ok::<Val, ()>(Val::Boolean(true)),
        exec_block((fuel - 1) as nat, b, 0, s1, m) == (s2, Ok::<Flow, ()>(Flow::Return(v))),
    ensures
        for_loop(fuel, name, end, step, b, st, m) == (s2, Ok::<Flow, ()>(Flow::Return(v))),
{
}

/// An `if` whose chosen block returns returns the same value.
pub proof fn law_return_leaves_if(fuel: nat, c: Expr, b: Seq<Stmt>, branches: Seq<(Expr, Seq<Stmt>)>, otherwise: Option<Seq<Stmt>>, st: Store, m: NumberModel, s1: Store, cv: Val, s2: Store, v: Val)
    requires
        eval(fuel, c, st, m) == (s1, Ok::<Val, ()>(cv)),
        truthy(cv),
        exec_block(fuel, b, 0, s1, m) == (s2, Ok::<Flow, ()>(Flow::Return(v))),
    ensures
        if_chain(fuel, c, b, branches, otherwise, st, m) == (s2, Ok::<Flow, ()>(Flow::Return(v))),
{
}

/// An `elseif` branch whose block returns makes the `if` return the same value.
pub proof fn law_return_leaves_elseif(fuel: nat, branches: Seq<(Expr, Seq<Stmt>)>, i: int, otherwise: Option<Seq<Stmt>>, st: Store, m: NumberModel, s1: Store, cv: Val, s2: Store, v: Val)
    requires
        fuel > 0,
        0 <= i < branches.len(),
        eval((fuel - 1) as nat, branches[i].0, st, m) == (s1, Ok::<Val, ()>(cv)),
        truthy(cv),
        exec_block((fuel - 1) as nat, branches[i].1, 0, s1, m) == (s2, Ok::<Flow, ()>(Flow::Return(v))),
    ensures
        else_chain(fuel, branches, i, otherwise, st, m) == (s2, Ok::<Flow, ()>(Flow::Return(v))),
{
}

/// Loops and `if` statements leave their scope with whatever their inner part produced, a
/// returned value included.
pub proof fn law_compound_statements_pass_results_out(fuel: nat, s: Stmt, st: Store, m: NumberModel)
    requires
        fuel > 0,
    ensures
        s matches Stmt::While(c, b) ==> exec(fuel, s, st, m) == ({
            let (s1, r) = while_loop((fuel - 1) as nat, c, b, push_scope(st), m);
            (pop_scope(s1), r)
        }),
        s matches Stmt::Repeat(b, c) ==> exec(fuel, s, st, m) == ({
            let (s1, r) = repeat_loop((fuel - 1) as nat, b, c, push_scope(st), m);
            (pop_scope(s1), r)
        }),
        s matches Stmt::For(name, start, end, step, b) ==> exec(fuel, s, st, m) == ({
            let (s1, r) = for_start((fuel - 1) as nat, name, start, end, step, b, push_scope(st), m);
            (pop_scope(s1), r)
        }),
        s matches Stmt::If(c, b, br, ow) ==> exec(fuel, s, st, m) == ({
            let (s1, r) = if_chain((fuel - 1) as nat, c, b, br, ow, push_scope(st), m);
            (pop_scope(s1), r)
        }),
{
}

/// A call whose body returns `v` yields exactly `v`, after leaving the call's scope.
pub proof fn law_call_yields_returned_value(fuel: nat, params: Seq<Seq<char>>, body: Seq<Stmt>, args: Seq<Val>, st: Store, m: NumberModel, s3: Store, v: Val)
    requires
        params.len() == args.len(),
        exec_block(fuel, body, 0, with_scopes(push_scope(st), bind_from(push_scope(st).scopes, params, args, 0)), m) == (s3, Ok::<Flow, ()>(Flow::Return(v))),
    ensures
        call_function(fuel, params, body, args, st, m) == (pop_scope(s3), Ok::<Val, ()>(v)),
{
}

/// Whether `e` is a literal number, boolean, string or `nil`.
pub open spec fn is_literal(e: Expr) -> bool {
    e is Number || e is Boolean || e is Str || e is Nil
}

/// The value of a literal.
pub open spec fn literal_value(e: Expr, m: NumberModel) -> Val {
    match e {
        Expr::Number(t) => Val::Number((m.parse)(t)),
        Expr::Boolean(b) => Val::Boolean(b),
        Expr::Str(s) => Val::Str(s),
        _ => Val::Nil,
    }
}

/// Whether every statement of `b` is a `local` declaration of a literal.
pub open spec fn only_locals(b: Seq<Stmt>) -> bool {
    forall|i: int| 0 <= i < b.len() ==> (#[trigger] b[i] is Local && is_literal(b[i]->Local_1))
}

proof fn lemma_literal(fuel: nat, e: Expr, st: Store, m: NumberModel)
    requires
        is_literal(e),
    ensures
        eval(fuel, e, st, m) == if fuel == 0 { (st, Err::<Val, ()>(())) } else { (st, Ok::<Val, ()>(literal_value(e, m))) },
{
}

/// Local declarations of literals change only the topmost frame.
proof fn lemma_locals_stay_on_top(fuel: nat, b: Seq<Stmt>, i: int, base: Store, fr: Frame, m: NumberModel)
    requires
        only_locals(b),
        i >= 0,
    ensures
        ({
            let s = exec_block(fuel, b, i, Store { scopes: base.scopes.push(fr), ..base }, m).0;
            &&& s.scopes.len() == base.scopes.len() + 1
            &&& s.scopes.drop_last() == base.scopes
            &&& s.tables == base.tables
            &&& s.output == base.output
        }),
    decreases fuel,
{
    let st = Store { scopes: base.scopes.push(fr), ..base };
    assert(st.scopes.drop_last() =~= base.scopes);
    if fuel > 0 && i < b.len() {
        let f = (fuel - 1) as nat;
        let x = b[i]->Local_0;
        let e = b[i]->Local_1;
        assert(b[i] == Stmt::Local(x, e));
        if f == 0 {
            assert(exec(f, b[i], st, m) == (st, Err::<Flow, ()>(())));
        } else {
            lemma_literal((f - 1) as nat, e, st, m);
            if f - 1 == 0 {
                assert(exec(f, b[i], st, m) == (st, Err::<Flow, ()>(())));
            } else {
                let v = literal_value(e, m);
                let fr2 = frame_set(fr, x, v);
                assert(declare(st.scopes, x, v) =~= base.scopes.push(fr2));
                let s1 = Store { scopes: base.scopes.push(fr2), ..base };
                assert(exec(f, b[i], st, m) == (s1, Ok::<Flow, ()>(Flow::Normal)));
                assert(exec_block(fuel, b, i, st, m) == exec_block(f, b, i + 1, s1, m));
                lemma_locals_stay_on_top(f, b, i + 1, base, fr2, m);
            }
        }
    }
}

/// Names declared with `local` inside an `if` block are gone when the block ends: a block of
/// such declarations leaves every binding outside it, and the whole store, as it was.
pub proof fn law_block_locals_are_invisible_after(fuel: nat, b: Seq<Stmt>, branches: Seq<(Expr, Seq<Stmt>)>, otherwise: Option<Seq<Stmt>>, st: Store, m: NumberModel, x: Seq<char>)
    requires
        only_locals(b),
    ensures
        exec(fuel, Stmt::If(Expr::Boolean(true), b, branches, otherwise), st, m).0 == st,
        lookup(exec(fuel, Stmt::If(Expr::Boolean(true), b, branches, otherwise), st, m).0.scopes, x) == lookup(st.scopes, x),
{
    let s = Stmt::If(Expr::Boolean(true), b, branches, otherwise);
    let pushed = push_scope(st);
    assert(pushed.scopes.drop_last() =~= st.scopes);
    if fuel > 0 {
        let f = (fuel - 1) as nat;
        if f > 0 {
            lemma_locals_stay_on_top(f, b, 0, st, seq![], m);
            assert(pushed == Store { scopes: st.scopes.push(seq![]), ..st });
        }
    }
}

proof fn lemma_unbound_everywhere(scopes: Seq<Frame>, x: Seq<char>, d: int)
    requires
        holder_from(scopes, x, d) == -1,
        d < scopes.len(),
    ensures
        forall|k: int| 0 <= k <= d ==> index_in(#[trigger] scopes[k], x, 0) < 0,
    decreases d + 1,
{
    if d >= 0 {
        lemma_unbound_everywhere(scopes, x, d - 1);
    }
}

proof fn lemma_holder_of_unbound(scopes: Seq<Frame>, x: Seq<char>, d: int)
    requires
        d < scopes.len(),
        forall|k: int| 0 <= k <= d ==> index_in(#[trigger] scopes[k], x, 0) < 0,
    ensures
        holder_from(scopes, x, d) == -1,
    decreases d + 1,
{
    if d >= 0 {
        lemma_holder_of_unbound(scopes, x, d - 1);
    }
}

proof fn lemma_holder_finds_global(scopes: Seq<Frame>, x: Seq<char>, d: int)
    requires
        0 <= d < scopes.len(),
        index_in(scopes[0], x, 0) >= 0,
        forall|k: int| 1 <= k <= d ==> index_in(#[trigger] scopes[k], x, 0) < 0,
    ensures
        holder_from(scopes, x, d) == 0,
    decreases d,
{
    if d > 0 {
        lemma_holder_finds_global(scopes, x, d - 1);
    }
}

proof fn lemma_index_after_push(f: Frame, x: Seq<char>, v: Val, k: int)
    requires
        0 <= k <= f.len(),
        index_in(f, x, k) == -1,
    ensures
        index_in(f.push((x, v)), x, k) == f.len(),
    decreases f.len() - k,
{
    if k < f.len() {
        lemma_index_after_push(f, x, v, k + 1);
    }
}

proof fn lemma_index_after_update(f: Frame, x: Seq<char>, v: Val, j: int, k: int)
    requires
        0 <= k <= j < f.len(),
        index_in(f, x, k) == j,
    ensures
        index_in(f.update(j, (x, v)), x, k) == j,
    decreases j - k,
{
    if k < j {
        lemma_index_after_update(f, x, v, j, k + 1);
    }
}

/// After `frame_set`, the frame binds `x` to `v`.
proof fn lemma_frame_set_binds(f: Frame, x: Seq<char>, v: Val)
    ensures
        index_in(frame_set(f, x, v), x, 0) >= 0,
        frame_set(f, x, v)[index_in(frame_set(f, x, v), x, 0)].1 == v,
{
    let j = index_in(f, x, 0);
    lemma_index_in_range(f, x, 0);
    if j >= 0 {
        lemma_index_after_update(f, x, v, j, 0);
    } else {
        lemma_index_after_push(f, x, v, 0);
    }
}

proof fn lemma_index_in_range(f: Frame, x: Seq<char>, k: int)
    requires
        k >= 0,
    ensures
        index_in(f, x, k) == -1 || (k <= index_in(f, x, k) < f.len() && f[index_in(f, x, k)].0 == x),
    decreases f.len() - k,
{
    if k < f.len() && f[k].0 != x {
        lemma_index_in_range(f, x, k + 1);
    }
}

/// Assigning a name that no scope binds, inside a block, binds it in the global scope, where it
/// stays visible after the block.
pub proof fn law_assignment_creates_global(fuel: nat, x: Seq<char>, e: Expr, st: Store, m: NumberModel)
    requires
        is_literal(e),
        st.scopes.len() >= 1,
        holder(st.scopes, x) == -1,
        fuel >= 4,
    ensures
        ({
            let (s, r) = exec(fuel, Stmt::If(Expr::Boolean(true), seq![Stmt::Assign(x, e)], seq![], None), st, m);
            &&& r == Ok::<Flow, ()>(Flow::Normal)
            &&& s.scopes == st.scopes.update(0, frame_set(st.scopes[0], x, literal_value(e, m)))
            &&& lookup(s.scopes, x) == Some(literal_value(e, m))
        }),
{
    let v = literal_value(e, m);
    let b = seq![Stmt::Assign(x, e)];
    let pushed = push_scope(st);
    let n = st.scopes.len();
    lemma_unbound_everywhere(st.scopes, x, n - 1);
    assert(index_in(pushed.scopes[n as int], x, 0) == -1);
    lemma_holder_of_unbound(pushed.scopes, x, n as int);
    assert(holder(pushed.scopes, x) == -1);
    let after = pushed.scopes.update(0, frame_set(pushed.scopes[0], x, v));
    assert(assign(pushed.scopes, x, v) == after);
    lemma_literal((fuel - 3) as nat, e, pushed, m);
    let s_after = with_scopes(pushed, after);
    assert(exec((fuel - 2) as nat, Stmt::Assign(x, e), pushed, m) == (s_after, Ok::<Flow, ()>(Flow::Normal)));
    assert(exec_block((fuel - 2) as nat, b, 1, s_after, m) == (s_after, Ok::<Flow, ()>(Flow::Normal)));
    assert(exec_block((fuel - 1) as nat, b, 0, pushed, m) == (s_after, Ok::<Flow, ()>(Flow::Normal)));
    assert(eval((fuel - 1) as nat, Expr::Boolean(true), pushed, m) == (pushed, Ok::<Val, ()>(Val::Boolean(true))));
    assert(if_chain((fuel - 1) as nat, Expr::Boolean(true), b, seq![], None, pushed, m) == (s_after, Ok::<Flow, ()>(Flow::Normal)));
    assert(exec(fuel, Stmt::If(Expr::Boolean(true), b, seq![], None), st, m) == (pop_scope(s_after), Ok::<Flow, ()>(Flow::Normal)));
    let result = st.scopes.update(0, frame_set(st.scopes[0], x, v));
    assert(after.drop_last() =~= result);
    lemma_frame_set_binds(st.scopes[0], x, v);
    lemma_holder_finds_global(result, x, n - 1);
}

} // verus!
