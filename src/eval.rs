use vstd::prelude::*;
use crate::ast::{
    BinaryOperator, Expression, Statement, block_model, branches_model, entries_model, expr_model,
    exprs_model, lemma_block_index, lemma_branches_index, lemma_entries_index, lemma_exprs_index,
    names_model, stmt_model,
};
use crate::numeric::{ArithOp, NumberModel, Numerics, compare_numbers};
use crate::semantics::{
    Flow, Native, Store, Val, binary_value, bind_from, call_function, else_chain,
    eval, eval_entries, eval_list, exec, exec_block, for_loop, for_start, if_chain, repeat_loop, run_from, while_loop, with_scopes,
};
use crate::text::{message, push_decimal};
use crate::vm::{EvalValue, VirtualMachine, table_model, table_put, value_result, values_model};

verus! {

/// How a statement completed: normally, or by `return` with a value.
#[derive(Debug, PartialEq)]
pub enum Completion<'a> {
    Normal,
    Return(EvalValue<'a>),
}

impl<'a> View for Completion<'a> {
    type V = Flow;

    open spec fn view(&self) -> Flow {
        match self {
            Completion::Normal => Flow::Normal,
            Completion::Return(v) => Flow::Return(v@),
        }
    }
}

pub open spec fn flow_result<'a>(r: Result<Completion<'a>, String>) -> Result<Flow, ()> {
    match r {
        Ok(c) => Ok(c@),
        Err(_) => Err(()),
    }
}

pub open spec fn values_result<'a>(r: Result<Vec<EvalValue<'a>>, String>) -> Result<Seq<Val>, ()> {
    match r {
        Ok(v) => Ok(values_model(v@)),
        Err(_) => Err(()),
    }
}

pub open spec fn table_result<'a>(r: Result<Vec<(EvalValue<'a>, EvalValue<'a>)>, String>) -> Result<Seq<(Val, Val)>, ()> {
    match r {
        Ok(t) => Ok(table_model(t@)),
        Err(_) => Err(()),
    }
}

fn too_deep() -> String {
    message("Evaluation too deep")
}

/// The value of `a op b`, or an error where the operator does not apply to the operands.
pub fn binary<'a, P, A, S>(op: BinaryOperator, a: EvalValue<'a>, b: EvalValue<'a>, num: &Numerics<P, A, S>) -> (r: Result<EvalValue<'a>, String>) where
    P: Fn(&str) -> u64,
    A: Fn(ArithOp, u64, u64) -> u64,
    S: Fn(u64) -> String,
    requires
        num.callable(),
    ensures
        forall|m: NumberModel| #[trigger] num.implements(m) ==> value_result(r) == binary_value(op, a@, b@, m),
{
    match (a, b) {
        (EvalValue::Number(x), EvalValue::Number(y)) => {
            let (less, less_equal, equal) = compare_numbers(x, y);
            let (greater, greater_equal, _) = compare_numbers(y, x);
            match op {
                BinaryOperator::Add => Ok(EvalValue::Number((num.arith)(ArithOp::Add, x, y))),
                BinaryOperator::Subtract => Ok(EvalValue::Number((num.arith)(ArithOp::Subtract, x, y))),
                BinaryOperator::Multiply => Ok(EvalValue::Number((num.arith)(ArithOp::Multiply, x, y))),
                BinaryOperator::Divide => Ok(EvalValue::Number((num.arith)(ArithOp::Divide, x, y))),
                BinaryOperator::Less => Ok(EvalValue::Boolean(less)),
                BinaryOperator::Greater => Ok(EvalValue::Boolean(greater)),
                BinaryOperator::LessEqual => Ok(EvalValue::Boolean(less_equal)),
                BinaryOperator::GreaterEqual => Ok(EvalValue::Boolean(greater_equal)),
                BinaryOperator::Equal => Ok(EvalValue::Boolean(equal)),
                BinaryOperator::NotEqual => Ok(EvalValue::Boolean(!equal)),
                BinaryOperator::Concat => Err(message("Unknown operator for numbers")),
            }
        },
        (EvalValue::String(x), EvalValue::String(y)) => match op {
            BinaryOperator::Concat => {
                let mut s = x;
                s.push_str(y.as_str());
                Ok(EvalValue::String(s))
            },
            BinaryOperator::Equal => Ok(EvalValue::Boolean(x == y)),
            BinaryOperator::NotEqual => Ok(EvalValue::Boolean(x != y)),
            _ => Err(message("Invalid operator for strings")),
        },
        (EvalValue::Boolean(x), EvalValue::Boolean(y)) => match op {
            BinaryOperator::Equal => Ok(EvalValue::Boolean(x == y)),
            BinaryOperator::NotEqual => Ok(EvalValue::Boolean(x != y)),
            _ => Err(message("Invalid operator for booleans")),
        },
        _ => Err(message("Invalid operand types")),
    }
}

impl Expression {
    /// Evaluates the expression; `fuel` bounds the depth of the evaluation.
    pub fn execute<'a, P, A, S>(&'a self, vm: &mut VirtualMachine<'a>, num: &Numerics<P, A, S>, fuel: u64) -> (r: Result<EvalValue<'a>, String>) where
        P: Fn(&str) -> u64,
        A: Fn(ArithOp, u64, u64) -> u64,
        S: Fn(u64) -> String,
        requires
            num.callable(),
            old(vm).wf(),
        ensures
            final(vm).wf(),
            final(vm).depth() == old(vm).depth(),
            forall|m: NumberModel| #[trigger] num.implements(m) ==> eval(fuel as nat, expr_model(*self), old(vm)@, m) == (final(vm)@, value_result(r)),
        decreases fuel, 0nat,
    {
        if fuel == 0 {
            return Err(too_deep());
        }
        let f = fuel - 1;
        match self {
            Expression::NumberLiteral(t) => Ok(EvalValue::Number((num.parse)(t.as_str()))),
            Expression::BooleanLiteral(b) => Ok(EvalValue::Boolean(*b)),
            Expression::StringLiteral(s) => Ok(EvalValue::String(s.clone())),
            Expression::NilLiteral => Ok(EvalValue::Nil),
            Expression::IdentifierExpression(name) => match vm.lookup_variable(name) {
                Some(v) => Ok(v),
                None => Ok(EvalValue::Nil),
            },
            Expression::TableLiteral(entries) => {
                let t = Vec::new();
                proof {
                    assert(table_model(t@) =~= Seq::<(Val, Val)>::empty());
                }
                match build_table(entries, 0, t, vm, num, f) {
                    Ok(t) => {
                        let id = vm.new_table(t);
                        Ok(EvalValue::Table(id))
                    },
                    Err(e) => Err(e),
                }
            },
            Expression::BinaryExpression(l, op, r) => {
                let a = match l.execute(vm, num, f) {
                    Ok(a) => a,
                    Err(e) => {
                        return Err(e);
                    },
                };
                let b = match r.execute(vm, num, f) {
                    Ok(b) => b,
                    Err(e) => {
                        return Err(e);
                    },
                };
                binary(*op, a, b, num)
            },
            Expression::FunctionCall(name, args) => {
                let done = Vec::new();
                proof {
                    assert(values_model(done@) =~= Seq::<Val>::empty());
                }
                let vals = match evaluate_arguments(args, 0, done, vm, num, f) {
                    Ok(v) => v,
                    Err(e) => {
                        return Err(e);
                    },
                };
                match vm.lookup_variable(name) {
                    Some(EvalValue::NativeFunction(Native::Print)) => vm.print(&vals, num),
                    Some(EvalValue::DeclaredFunction { arguments, body }) => call_declared(arguments, body, vals, vm, num, f),
                    _ => {
                        let mut m = message("Function '");
                        m.push_str(name.as_str());
                        m.push_str("' not found");
                        Err(m)
                    },
                }
            },
            Expression::IndexOperator(t, k) => {
                let tv = match t.execute(vm, num, f) {
                    Ok(v) => v,
                    Err(e) => {
                        return Err(e);
                    },
                };
                let kv = match k.execute(vm, num, f) {
                    Ok(v) => v,
                    Err(e) => {
                        return Err(e);
                    },
                };
                match tv {
                    EvalValue::Table(id) => match vm.table_lookup(id, &kv) {
                        Some(v) => Ok(v),
                        None => Err(message("No such table")),
                    },
                    EvalValue::Nil => Ok(EvalValue::Nil),
                    _ => Err(message("Cannot index non-table value")),
                }
            },
        }
    }
}

/// The values of `args[i..]`, left to right, after the values `done`.
fn evaluate_arguments<'a, P, A, S>(args: &'a Vec<Expression>, i: usize, done: Vec<EvalValue<'a>>, vm: &mut VirtualMachine<'a>, num: &Numerics<P, A, S>, fuel: u64) -> (r: Result<Vec<EvalValue<'a>>, String>) where
    P: Fn(&str) -> u64,
    A: Fn(ArithOp, u64, u64) -> u64,
    S: Fn(u64) -> String,
    requires
        num.callable(),
        old(vm).wf(),
    ensures
        final(vm).wf(),
        final(vm).depth() == old(vm).depth(),
        forall|m: NumberModel| #[trigger] num.implements(m) ==> eval_list(fuel as nat, exprs_model(args@), i as int, values_model(done@), old(vm)@, m) == (final(vm)@, values_result(r)),
    decreases fuel, 1nat,
{
    if fuel == 0 {
        return Err(too_deep());
    }
    proof {
        lemma_exprs_index(args@);
    }
    if i >= args.len() {
        return Ok(done);
    }
    match args[i].execute(vm, num, fuel - 1) {
        Ok(v) => {
            let mut done = done;
            let ghost before = values_model(done@);
            done.push(v);
            assert(values_model(done@) =~= before.push(v@));
            evaluate_arguments(args, i + 1, done, vm, num, fuel - 1)
        },
        Err(e) => Err(e),
    }
}

/// The table of `entries[i..]` (each key, then its value) added to `done`.
fn build_table<'a, P, A, S>(entries: &'a Vec<(Expression, Expression)>, i: usize, done: Vec<(EvalValue<'a>, EvalValue<'a>)>, vm: &mut VirtualMachine<'a>, num: &Numerics<P, A, S>, fuel: u64) -> (r: Result<Vec<(EvalValue<'a>, EvalValue<'a>)>, String>) where
    P: Fn(&str) -> u64,
    A: Fn(ArithOp, u64, u64) -> u64,
    S: Fn(u64) -> String,
    requires
        num.callable(),
        old(vm).wf(),
    ensures
        final(vm).wf(),
        final(vm).depth() == old(vm).depth(),
        forall|m: NumberModel| #[trigger] num.implements(m) ==> eval_entries(fuel as nat, entries_model(entries@), i as int, table_model(done@), old(vm)@, m) == (final(vm)@, table_result(r)),
    decreases fuel, 1nat,
{
    if fuel == 0 {
        return Err(too_deep());
    }
    proof {
        lemma_entries_index(entries@);
    }
    if i >= entries.len() {
        return Ok(done);
    }
    let k = match entries[i].0.execute(vm, num, fuel - 1) {
        Ok(k) => k,
        Err(e) => {
            return Err(e);
        },
    };
    let v = match entries[i].1.execute(vm, num, fuel - 1) {
        Ok(v) => v,
        Err(e) => {
            return Err(e);
        },
    };
    let mut done = done;
    table_put(&mut done, k, v);
    build_table(entries, i + 1, done, vm, num, fuel - 1)
}

/// A call of a declared function: a new scope holds the parameters and the body runs in it.
fn call_declared<'a, P, A, S>(arguments: &'a Vec<String>, body: &'a Vec<Statement>, vals: Vec<EvalValue<'a>>, vm: &mut VirtualMachine<'a>, num: &Numerics<P, A, S>, fuel: u64) -> (r: Result<EvalValue<'a>, String>) where
    P: Fn(&str) -> u64,
    A: Fn(ArithOp, u64, u64) -> u64,
    S: Fn(u64) -> String,
    requires
        num.callable(),
        old(vm).wf(),
    ensures
        final(vm).wf(),
        final(vm).depth() == old(vm).depth(),
        forall|m: NumberModel| #[trigger] num.implements(m) ==> call_function(fuel as nat, names_model(arguments@), block_model(body@), values_model(vals@), old(vm)@, m) == (final(vm)@, value_result(r)),
    decreases fuel, 2nat,
{
    let ghost params = names_model(arguments@);
    let ghost args = values_model(vals@);
    vm.enter_scope();
    let ghost s1 = vm@;
    if arguments.len() != vals.len() {
        vm.exit_scope();
        let mut m = message("Expected ");
        push_decimal(&mut m, arguments.len());
        m.push_str(" arguments, got ");
        push_decimal(&mut m, vals.len());
        return Err(m);
    }
    let mut i: usize = 0;
    while i < arguments.len()
        invariant
            vm.wf(),
            vm.depth() == old(vm).depth() + 1,
            params == names_model(arguments@),
            args == values_model(vals@),
            arguments.len() == vals.len(),
            i <= arguments.len(),
            vm@.tables == s1.tables,
            vm@.output == s1.output,
            bind_from(s1.scopes, params, args, 0) == bind_from(vm@.scopes, params, args, i as int),
        decreases arguments.len() - i,
    {
        vm.declare_variable(arguments[i].clone(), vals[i].duplicate());
        i = i + 1;
    }
    assert(vm@ == with_scopes(s1, bind_from(s1.scopes, params, args, 0)));
    let r = execute_block(body, 0, vm, num, fuel);
    vm.exit_scope();
    match r {
        Ok(Completion::Return(v)) => Ok(v),
        Ok(Completion::Normal) => Ok(EvalValue::Nil),
        Err(e) => Err(e),
    }
}

/// The statements `b[i..]` in order, up to the first that returns.
pub fn execute_block<'a, P, A, S>(b: &'a Vec<Statement>, i: usize, vm: &mut VirtualMachine<'a>, num: &Numerics<P, A, S>, fuel: u64) -> (r: Result<Completion<'a>, String>) where
    P: Fn(&str) -> u64,
    A: Fn(ArithOp, u64, u64) -> u64,
    S: Fn(u64) -> String,
    requires
        num.callable(),
        old(vm).wf(),
    ensures
        final(vm).wf(),
        final(vm).depth() == old(vm).depth(),
        forall|m: NumberModel| #[trigger] num.implements(m) ==> exec_block(fuel as nat, block_model(b@), i as int, old(vm)@, m) == (final(vm)@, flow_result(r)),
    decreases fuel, 1nat,
{
    if fuel == 0 {
        return Err(too_deep());
    }
    if i >= b.len() {
        proof {
            lemma_block_index(b@);
        }
        return Ok(Completion::Normal);
    }
    proof {
        lemma_block_index(b@);
    }
    match b[i].execute(vm, num, fuel - 1) {
        Ok(Completion::Normal) => execute_block(b, i + 1, vm, num, fuel - 1),
        other => other,
    }
}

} // verus!

verus! {

impl Statement {
    /// Executes the statement; `fuel` bounds the depth of the evaluation.
    pub fn execute<'a, P, A, S>(&'a self, vm: &mut VirtualMachine<'a>, num: &Numerics<P, A, S>, fuel: u64) -> (r: Result<Completion<'a>, String>) where
        P: Fn(&str) -> u64,
        A: Fn(ArithOp, u64, u64) -> u64,
        S: Fn(u64) -> String,
        requires
            num.callable(),
            old(vm).wf(),
        ensures
            final(vm).wf(),
            final(vm).depth() == old(vm).depth(),
            forall|m: NumberModel| #[trigger] num.implements(m) ==> exec(fuel as nat, stmt_model(*self), old(vm)@, m) == (final(vm)@, flow_result(r)),
        decreases fuel, 0nat,
    {
        if fuel == 0 {
            return Err(too_deep());
        }
        let f = fuel - 1;
        match self {
            Statement::LocalVariableDeclaration(name, e) => match e.execute(vm, num, f) {
                Ok(v) => {
                    vm.declare_variable(name.clone(), v);
                    Ok(Completion::Normal)
                },
                Err(e) => Err(e),
            },
            Statement::AssigmentStatement(name, e) => match e.execute(vm, num, f) {
                Ok(v) => {
                    vm.change_or_create_value(name.clone(), v);
                    Ok(Completion::Normal)
                },
                Err(e) => Err(e),
            },
            Statement::ExpressionStatement(e) => match e.execute(vm, num, f) {
                Ok(_) => Ok(Completion::Normal),
                Err(e) => Err(e),
            },
            Statement::ReturnStatement(e) => match e.execute(vm, num, f) {
                Ok(v) => Ok(Completion::Return(v)),
                Err(e) => Err(e),
            },
            Statement::FunctionDeclaration { function_name, function_arguments, function_body } => {
                vm.declare_variable(
                    function_name.clone(),
                    EvalValue::DeclaredFunction { arguments: function_arguments, body: function_body },
                );
                Ok(Completion::Normal)
            },
            Statement::WhileLoop { loop_condition, code_block } => {
                vm.enter_scope();
                let r = run_while(loop_condition, code_block, vm, num, f);
                vm.exit_scope();
                r
            },
            Statement::RepeatUntilLoop { code_block, loop_condition } => {
                vm.enter_scope();
                let r = run_repeat(code_block, loop_condition, vm, num, f);
                vm.exit_scope();
                r
            },
            Statement::ForLoop { iterator_identifier, starting_value, ending_value, step_value, code_block } => {
                vm.enter_scope();
                let r = start_for(iterator_identifier, starting_value, ending_value, step_value, code_block, vm, num, f);
                vm.exit_scope();
                r
            },
            Statement::IfStatement { basic_condition, code_block, elseif_statements, else_block } => {
                vm.enter_scope();
                let r = run_if(basic_condition, code_block, elseif_statements, else_block, vm, num, f);
                vm.exit_scope();
                r
            },
        }
    }
}

/// A `while` loop in its scope.
fn run_while<'a, P, A, S>(c: &'a Expression, b: &'a Vec<Statement>, vm: &mut VirtualMachine<'a>, num: &Numerics<P, A, S>, fuel: u64) -> (r: Result<Completion<'a>, String>) where
    P: Fn(&str) -> u64,
    A: Fn(ArithOp, u64, u64) -> u64,
    S: Fn(u64) -> String,
    requires
        num.callable(),
        old(vm).wf(),
    ensures
        final(vm).wf(),
        final(vm).depth() == old(vm).depth(),
        forall|m: NumberModel| #[trigger] num.implements(m) ==> while_loop(fuel as nat, expr_model(*c), block_model(b@), old(vm)@, m) == (final(vm)@, flow_result(r)),
    decreases fuel, 0nat,
{
    let ghost cm = expr_model(*c);
    let ghost bm = block_model(b@);
    let mut g = fuel;
    let mut outcome: Option<Result<Completion<'a>, String>> = None;
    while outcome.is_none()
        invariant
            num.callable(),
            vm.wf(),
            vm.depth() == old(vm).depth(),
            g <= fuel,
            cm == expr_model(*c),
            bm == block_model(b@),
            outcome is None ==> forall|m: NumberModel| #[trigger] num.implements(m) ==> while_loop(fuel as nat, cm, bm, old(vm)@, m) == while_loop(g as nat, cm, bm, vm@, m),
            outcome matches Some(res) ==> forall|m: NumberModel| #[trigger] num.implements(m) ==> while_loop(fuel as nat, cm, bm, old(vm)@, m) == (vm@, flow_result(res)),
        decreases 2 * g + if outcome is None { 1int } else { 0int },
    {
        if g == 0 {
            outcome = Some(Err(too_deep()));
        } else {
            match c.execute(vm, num, g - 1) {
                Err(e) => {
                    outcome = Some(Err(e));
                },
                Ok(cv) => {
                    if !cv.is_true() {
                        outcome = Some(Ok(Completion::Normal));
                    } else {
                        match execute_block(b, 0, vm, num, g - 1) {
                            Ok(Completion::Normal) => {
                                g = g - 1;
                            },
                            other => {
                                outcome = Some(other);
                            },
                        }
                    }
                },
            }
        }
    }
    outcome.unwrap()
}

/// A `repeat` loop in its scope.
fn run_repeat<'a, P, A, S>(b: &'a Vec<Statement>, c: &'a Expression, vm: &mut VirtualMachine<'a>, num: &Numerics<P, A, S>, fuel: u64) -> (r: Result<Completion<'a>, String>) where
    P: Fn(&str) -> u64,
    A: Fn(ArithOp, u64, u64) -> u64,
    S: Fn(u64) -> String,
    requires
        num.callable(),
        old(vm).wf(),
    ensures
        final(vm).wf(),
        final(vm).depth() == old(vm).depth(),
        forall|m: NumberModel| #[trigger] num.implements(m) ==> repeat_loop(fuel as nat, block_model(b@), expr_model(*c), old(vm)@, m) == (final(vm)@, flow_result(r)),
    decreases fuel, 0nat,
{
    let ghost cm = expr_model(*c);
    let ghost bm = block_model(b@);
    let mut g = fuel;
    let mut outcome: Option<Result<Completion<'a>, String>> = None;
    while outcome.is_none()
        invariant
            num.callable(),
            vm.wf(),
            vm.depth() == old(vm).depth(),
            g <= fuel,
            cm == expr_model(*c),
            bm == block_model(b@),
            outcome is None ==> forall|m: NumberModel| #[trigger] num.implements(m) ==> repeat_loop(fuel as nat, bm, cm, old(vm)@, m) == repeat_loop(g as nat, bm, cm, vm@, m),
            outcome matches Some(res) ==> forall|m: NumberModel| #[trigger] num.implements(m) ==> repeat_loop(fuel as nat, bm, cm, old(vm)@, m) == (vm@, flow_result(res)),
        decreases 2 * g + if outcome is None { 1int } else { 0int },
    {
        if g == 0 {
            outcome = Some(Err(too_deep()));
        } else {
            match execute_block(b, 0, vm, num, g - 1) {
                Ok(Completion::Normal) => {
                    match c.execute(vm, num, g - 1) {
                        Err(e) => {
                            outcome = Some(Err(e));
                        },
                        Ok(cv) => {
                            if cv.is_true() {
                                outcome = Some(Ok(Completion::Normal));
                            } else {
                                g = g - 1;
                            }
                        },
                    }
                },
                other => {
                    outcome = Some(other);
                },
            }
        }
    }
    outcome.unwrap()
}

/// A numeric `for` loop in its scope: binds the start value, evaluates the step, and loops.
fn start_for<'a, P, A, S>(
    name: &'a String,
    start: &'a Expression,
    end: &'a Expression,
    step: &'a Expression,
    b: &'a Vec<Statement>,
    vm: &mut VirtualMachine<'a>,
    num: &Numerics<P, A, S>,
    fuel: u64,
) -> (r: Result<Completion<'a>, String>) where
    P: Fn(&str) -> u64,
    A: Fn(ArithOp, u64, u64) -> u64,
    S: Fn(u64) -> String,
    requires
        num.callable(),
        old(vm).wf(),
    ensures
        final(vm).wf(),
        final(vm).depth() == old(vm).depth(),
        forall|m: NumberModel| #[trigger] num.implements(m) ==> for_start(fuel as nat, name@, expr_model(*start), expr_model(*end), expr_model(*step), block_model(b@), old(vm)@, m) == (final(vm)@, flow_result(r)),
    decreases fuel, 1nat,
{
    let v = match start.execute(vm, num, fuel) {
        Ok(v) => v,
        Err(e) => {
            return Err(e);
        },
    };
    vm.declare_variable(name.clone(), v);
    let n = match step.execute(vm, num, fuel) {
        Ok(EvalValue::Number(n)) => n,
        Ok(_) => {
            return Err(message("Invalid step value"));
        },
        Err(e) => {
            return Err(e);
        },
    };
    run_for(name, end, n, b, vm, num, fuel)
}

/// The iterations of a numeric `for` loop.
fn run_for<'a, P, A, S>(name: &'a String, end: &'a Expression, step: u64, b: &'a Vec<Statement>, vm: &mut VirtualMachine<'a>, num: &Numerics<P, A, S>, fuel: u64) -> (r: Result<Completion<'a>, String>) where
    P: Fn(&str) -> u64,
    A: Fn(ArithOp, u64, u64) -> u64,
    S: Fn(u64) -> String,
    requires
        num.callable(),
        old(vm).wf(),
    ensures
        final(vm).wf(),
        final(vm).depth() == old(vm).depth(),
        forall|m: NumberModel| #[trigger] num.implements(m) ==> for_loop(fuel as nat, name@, expr_model(*end), step, block_model(b@), old(vm)@, m) == (final(vm)@, flow_result(r)),
    decreases fuel, 0nat,
{
    let ghost em = expr_model(*end);
    let ghost bm = block_model(b@);
    let mut g = fuel;
    let mut outcome: Option<Result<Completion<'a>, String>> = None;
    while outcome.is_none()
        invariant
            num.callable(),
            vm.wf(),
            vm.depth() == old(vm).depth(),
            g <= fuel,
            em == expr_model(*end),
            bm == block_model(b@),
            outcome is None ==> forall|m: NumberModel| #[trigger] num.implements(m) ==> for_loop(fuel as nat, name@, em, step, bm, old(vm)@, m) == for_loop(g as nat, name@, em, step, bm, vm@, m),
            outcome matches Some(res) ==> forall|m: NumberModel| #[trigger] num.implements(m) ==> for_loop(fuel as nat, name@, em, step, bm, old(vm)@, m) == (vm@, flow_result(res)),
        decreases 2 * g + if outcome is None { 1int } else { 0int },
    {
        if g == 0 {
            outcome = Some(Err(too_deep()));
        } else {
            let iv = match vm.lookup_variable(name) {
                Some(v) => v,
                None => EvalValue::Nil,
            };
            match end.execute(vm, num, g - 1) {
                Err(e) => {
                    outcome = Some(Err(e));
                },
                Ok(ev) => match binary(BinaryOperator::LessEqual, iv, ev, num) {
                    Err(e) => {
                        outcome = Some(Err(e));
                    },
                    Ok(cv) => {
                        if !cv.is_true() {
                            outcome = Some(Ok(Completion::Normal));
                        } else {
                            match execute_block(b, 0, vm, num, g - 1) {
                                Ok(Completion::Normal) => match vm.lookup_variable(name) {
                                    Some(EvalValue::Number(x)) => {
                                        let next = (num.arith)(ArithOp::Add, x, step);
                                        vm.change_or_create_value(name.clone(), EvalValue::Number(next));
                                        g = g - 1;
                                    },
                                    _ => {
                                        outcome = Some(Err(message("Invalid iterator value")));
                                    },
                                },
                                other => {
                                    outcome = Some(other);
                                },
                            }
                        }
                    },
                },
            }
        }
    }
    outcome.unwrap()
}

/// An `if` statement in its scope.
fn run_if<'a, P, A, S>(
    c: &'a Expression,
    b: &'a Vec<Statement>,
    branches: &'a Vec<(Box<Expression>, Vec<Statement>)>,
    otherwise: &'a Option<Vec<Statement>>,
    vm: &mut VirtualMachine<'a>,
    num: &Numerics<P, A, S>,
    fuel: u64,
) -> (r: Result<Completion<'a>, String>) where
    P: Fn(&str) -> u64,
    A: Fn(ArithOp, u64, u64) -> u64,
    S: Fn(u64) -> String,
    requires
        num.callable(),
        old(vm).wf(),
    ensures
        final(vm).wf(),
        final(vm).depth() == old(vm).depth(),
        forall|m: NumberModel| #[trigger] num.implements(m) ==> if_chain(
            fuel as nat,
            expr_model(*c),
            block_model(b@),
            branches_model(branches@),
            match otherwise {
                Some(e) => Some(block_model(e@)),
                None => None,
            },
            old(vm)@,
            m,
        ) == (final(vm)@, flow_result(r)),
    decreases fuel, 2nat,
{
    match c.execute(vm, num, fuel) {
        Ok(cv) => {
            if cv.is_true() {
                execute_block(b, 0, vm, num, fuel)
            } else {
                run_else(branches, 0, otherwise, vm, num, fuel)
            }
        },
        Err(e) => Err(e),
    }
}

/// The `elseif` branches from `i` on, then the `else` block.
fn run_else<'a, P, A, S>(
    branches: &'a Vec<(Box<Expression>, Vec<Statement>)>,
    i: usize,
    otherwise: &'a Option<Vec<Statement>>,
    vm: &mut VirtualMachine<'a>,
    num: &Numerics<P, A, S>,
    fuel: u64,
) -> (r: Result<Completion<'a>, String>) where
    P: Fn(&str) -> u64,
    A: Fn(ArithOp, u64, u64) -> u64,
    S: Fn(u64) -> String,
    requires
        num.callable(),
        old(vm).wf(),
    ensures
        final(vm).wf(),
        final(vm).depth() == old(vm).depth(),
        forall|m: NumberModel| #[trigger] num.implements(m) ==> else_chain(
            fuel as nat,
            branches_model(branches@),
            i as int,
            match otherwise {
                Some(e) => Some(block_model(e@)),
                None => None,
            },
            old(vm)@,
            m,
        ) == (final(vm)@, flow_result(r)),
    decreases fuel, 0nat,
{
    if fuel == 0 {
        return Err(too_deep());
    }
    proof {
        lemma_branches_index(branches@);
    }
    if i >= branches.len() {
        return match otherwise {
            Some(e) => execute_block(e, 0, vm, num, fuel - 1),
            None => Ok(Completion::Normal),
        };
    }
    match branches[i].0.execute(vm, num, fuel - 1) {
        Ok(cv) => {
            if cv.is_true() {
                execute_block(&branches[i].1, 0, vm, num, fuel - 1)
            } else {
                run_else(branches, i + 1, otherwise, vm, num, fuel - 1)
            }
        },
        Err(e) => Err(e),
    }
}

/// The number of steps deep that a program may evaluate.
pub open spec fn fuel_limit() -> nat {
    u64::MAX as nat
}

/// What running a whole program does: its statements in order at top level.
pub open spec fn run_program(p: Seq<crate::ast::Stmt>, st: Store, m: NumberModel) -> (Store, Result<(), ()>) {
    run_from(fuel_limit(), p, 0, st, m)
}

pub open spec fn unit_result(r: Result<(), String>) -> Result<(), ()> {
    match r {
        Ok(_) => Ok(()),
        Err(_) => Err(()),
    }
}

impl<'a> VirtualMachine<'a> {
    /// Runs a program's statements in order; a value returned at top level is discarded, and
    /// the first error stops the program.
    pub fn execute<P, A, S>(&mut self, ast: &'a Vec<Statement>, num: &Numerics<P, A, S>) -> (r: Result<(), String>) where
        P: Fn(&str) -> u64,
        A: Fn(ArithOp, u64, u64) -> u64,
        S: Fn(u64) -> String,
        requires
            num.callable(),
            old(self).wf(),
        ensures
            final(self).wf(),
            final(self).depth() == old(self).depth(),
            forall|m: NumberModel| #[trigger] num.implements(m) ==> run_program(block_model(ast@), old(self)@, m) == (final(self)@, unit_result(r)),
    {
        let ghost p = block_model(ast@);
        proof {
            lemma_block_index(ast@);
        }
        let mut g: u64 = u64::MAX;
        let mut i: usize = 0;
        let mut outcome: Option<Result<(), String>> = None;
        while outcome.is_none()
            invariant
                num.callable(),
                self.wf(),
                self.depth() == old(self).depth(),
                p == block_model(ast@),
                p.len() == ast.len(),
                forall|k: int| 0 <= k < ast.len() ==> #[trigger] p[k] == stmt_model(ast@[k]),
                outcome is None ==> forall|m: NumberModel| #[trigger] num.implements(m) ==> run_program(p, old(self)@, m) == run_from(g as nat, p, i as int, self@, m),
                outcome matches Some(res) ==> forall|m: NumberModel| #[trigger] num.implements(m) ==> run_program(p, old(self)@, m) == (self@, unit_result(res)),
            decreases 2 * g + if outcome is None { 1int } else { 0int },
        {
            if g == 0 {
                outcome = Some(Err(too_deep()));
            } else if i >= ast.len() {
                outcome = Some(Ok(()));
            } else {
                match ast[i].execute(self, num, g - 1) {
                    Ok(_) => {
                        i = i + 1;
                        g = g - 1;
                    },
                    Err(e) => {
                        outcome = Some(Err(e));
                    },
                }
            }
        }
        outcome.unwrap()
    }
}

} // verus!
