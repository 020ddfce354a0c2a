use vstd::prelude::*;
use crate::ast::{Statement, block_model, names_model};
use crate::numeric::{ArithOp, NumberModel, Numerics};
use crate::semantics::{
    Frame, Native, Store, Val, call_native, print_from, printed, assign, declare, frame_set, holder, holder_from, index_in,
    key_index, lookup, pop_scope, push_scope, same_key, table_get, table_insert, truthy,
};

verus! {

/// A runtime value.
#[derive(Debug, PartialEq)]
pub enum EvalValue<'a> {
    /// An IEEE-754 double, held as its bit pattern.
    Number(u64),
    Boolean(bool),
    String(String),
    Nil,
    NativeFunction(Native),
    /// A declared function: its parameter names and its body, as written in the program.
    DeclaredFunction { arguments: &'a Vec<String>, body: &'a Vec<Statement> },
    /// The table with this number among the tables that the program has built.
    Table(usize),
}

impl<'a> View for EvalValue<'a> {
    type V = Val;

    open spec fn view(&self) -> Val {
        match self {
            EvalValue::Number(n) => Val::Number(*n),
            EvalValue::Boolean(b) => Val::Boolean(*b),
            EvalValue::String(s) => Val::Str(s@),
            EvalValue::Nil => Val::Nil,
            EvalValue::NativeFunction(f) => Val::Native(*f),
            EvalValue::DeclaredFunction { arguments, body } => Val::Function(names_model(arguments@), block_model(body@)),
            EvalValue::Table(id) => Val::Table(*id as nat),
        }
    }
}

impl<'a> EvalValue<'a> {
    /// A copy of the value.
    pub fn duplicate(&self) -> (r: EvalValue<'a>)
        ensures
            r == *self,
    {
        match self {
            EvalValue::Number(n) => EvalValue::Number(*n),
            EvalValue::Boolean(b) => EvalValue::Boolean(*b),
            EvalValue::String(s) => EvalValue::String(s.clone()),
            EvalValue::Nil => EvalValue::Nil,
            EvalValue::NativeFunction(f) => EvalValue::NativeFunction(*f),
            EvalValue::DeclaredFunction { arguments, body } => EvalValue::DeclaredFunction { arguments: *arguments, body: *body },
            EvalValue::Table(id) => EvalValue::Table(*id),
        }
    }

    /// Whether the value counts as true: all but `nil` and `false` do.
    pub fn is_true(&self) -> (r: bool)
        ensures
            r == truthy(self@),
    {
        !matches!(self, EvalValue::Nil | EvalValue::Boolean(false))
    }
}

/// Whether two values are the same table key.
pub fn same_key_value(a: &EvalValue, b: &EvalValue) -> (r: bool)
    ensures
        r == same_key(a@, b@),
{
    match (a, b) {
        (EvalValue::Number(x), EvalValue::Number(y)) => *x == *y,
        (EvalValue::Boolean(x), EvalValue::Boolean(y)) => *x == *y,
        (EvalValue::String(x), EvalValue::String(y)) => *x == *y,
        (EvalValue::Nil, EvalValue::Nil) => true,
        (EvalValue::NativeFunction(Native::Print), EvalValue::NativeFunction(Native::Print)) => true,
        (EvalValue::Table(x), EvalValue::Table(y)) => *x == *y,
        _ => false,
    }
}

pub open spec fn values_model<'a>(v: Seq<EvalValue<'a>>) -> Seq<Val> {
    v.map_values(|x: EvalValue<'a>| x@)
}

pub open spec fn value_result<'a>(r: Result<EvalValue<'a>, String>) -> Result<Val, ()> {
    match r {
        Ok(v) => Ok(v@),
        Err(_) => Err(()),
    }
}

pub open spec fn frame_model<'a>(f: Seq<(String, EvalValue<'a>)>) -> Frame {
    f.map_values(|b: (String, EvalValue<'a>)| (b.0@, b.1@))
}

pub open spec fn table_model<'a>(t: Seq<(EvalValue<'a>, EvalValue<'a>)>) -> Seq<(Val, Val)> {
    t.map_values(|e: (EvalValue<'a>, EvalValue<'a>)| (e.0@, e.1@))
}

/// The tree-walking interpreter's state: the scope stack, the tables and the printed text.
pub struct VirtualMachine<'a> {
    scopes_stack: Vec<Vec<(String, EvalValue<'a>)>>,
    tables: Vec<Vec<(EvalValue<'a>, EvalValue<'a>)>>,
    output: String,
}

impl<'a> View for VirtualMachine<'a> {
    type V = Store;

    closed spec fn view(&self) -> Store {
        Store {
            scopes: self.scopes_stack@.map_values(|f: Vec<(String, EvalValue<'a>)>| frame_model(f@)),
            tables: self.tables@.map_values(|t: Vec<(EvalValue<'a>, EvalValue<'a>)>| table_model(t@)),
            output: self.output@,
        }
    }
}

/// The global scope of a new machine: `print` bound to the native printer.
pub open spec fn initial_store() -> Store {
    Store {
        scopes: seq![seq![(seq!['p', 'r', 'i', 'n', 't'], Val::Native(Native::Print))]],
        tables: seq![],
        output: seq![],
    }
}

fn frame_index<'a>(f: &Vec<(String, EvalValue<'a>)>, name: &String) -> (r: Option<usize>)
    ensures
        match r {
            Some(i) => index_in(frame_model(f@), name@, 0) == i && i < f.len(),
            None => index_in(frame_model(f@), name@, 0) == -1,
        },
{
    let ghost fm = frame_model(f@);
    let mut i: usize = 0;
    while i < f.len()
        invariant
            fm == frame_model(f@),
            i <= f.len(),
            index_in(fm, name@, 0) == index_in(fm, name@, i as int),
        decreases f.len() - i,
    {
        if f[i].0 == *name {
            return Some(i);
        }
        i = i + 1;
    }
    None
}

fn frame_store<'a>(f: &mut Vec<(String, EvalValue<'a>)>, name: String, v: EvalValue<'a>)
    ensures
        frame_model(final(f)@) == frame_set(frame_model(old(f)@), name@, v@),
{
    let ghost fm = frame_model(f@);
    let ghost nm = name@;
    let ghost vm = v@;
    match frame_index(f, &name) {
        Some(i) => {
            f.set(i, (name, v));
            assert(frame_model(f@) =~= fm.update(i as int, (nm, vm)));
        },
        None => {
            f.push((name, v));
            assert(frame_model(f@) =~= fm.push((nm, vm)));
        },
    }
}

impl<'a> VirtualMachine<'a> {
    /// The stack has the global scope at its bottom.
    pub open spec fn wf(&self) -> bool {
        self.depth() >= 1
    }

    /// The number of scopes on the stack.
    pub closed spec fn depth(&self) -> nat {
        self.scopes_stack.len() as nat
    }

    /// A machine whose global scope binds `print`.
    pub fn new() -> (r: VirtualMachine<'a>)
        ensures
            r.wf(),
            r@ == initial_store(),
    {
        let mut name = String::new();
        name.push('p');
        name.push('r');
        name.push('i');
        name.push('n');
        name.push('t');
        let mut global: Vec<(String, EvalValue<'a>)> = Vec::new();
        global.push((name, EvalValue::NativeFunction(Native::Print)));
        let mut scopes_stack: Vec<Vec<(String, EvalValue<'a>)>> = Vec::new();
        scopes_stack.push(global);
        let r = VirtualMachine { scopes_stack, tables: Vec::new(), output: String::new() };
        assert(r.scopes_stack@[0]@[0].0@ =~= seq!['p', 'r', 'i', 'n', 't']);
        assert(frame_model(r.scopes_stack@[0]@) =~= initial_store().scopes[0]);
        assert(r@.scopes =~= initial_store().scopes);
        assert(r@.tables =~= initial_store().tables);
        r
    }

    /// The text that `print` has written so far.
    pub fn output(&self) -> (r: &String)
        ensures
            r@ == self@.output,
    {
        &self.output
    }

    pub fn enter_scope(&mut self)
        ensures
            final(self)@ == push_scope(old(self)@),
            final(self).depth() == old(self).depth() + 1,
            final(self).wf(),
    {
        let ghost old_sc = self@.scopes;
        self.scopes_stack.push(Vec::new());
        assert(frame_model(Seq::<(String, EvalValue<'a>)>::empty()) =~= Seq::<(Seq<char>, Val)>::empty());
        assert(self@.scopes =~= old_sc.push(seq![]));
    }

    pub fn exit_scope(&mut self)
        requires
            old(self).depth() >= 2,
        ensures
            final(self)@ == pop_scope(old(self)@),
            final(self).depth() == old(self).depth() - 1,
            final(self).wf(),
    {
        let ghost old_sc = self@.scopes;
        self.scopes_stack.pop();
        assert(self@.scopes =~= old_sc.drop_last());
    }

    /// Binds `name` in the topmost scope.
    pub fn declare_variable(&mut self, name: String, value: EvalValue<'a>)
        requires
            old(self).wf(),
        ensures
            final(self)@ == crate::semantics::with_scopes(old(self)@, declare(old(self)@.scopes, name@, value@)),
            final(self).depth() == old(self).depth(),
            final(self).wf(),
    {
        let top = self.scopes_stack.len() - 1;
        self.store_in(top, name, value);
    }

    fn store_in(&mut self, d: usize, name: String, value: EvalValue<'a>)
        requires
            d < old(self).scopes_stack.len(),
        ensures
            final(self)@ == crate::semantics::with_scopes(old(self)@, old(self)@.scopes.update(d as int, frame_set(old(self)@.scopes[d as int], name@, value@))),
            final(self).depth() == old(self).depth(),
            final(self).scopes_stack.len() == old(self).scopes_stack.len(),
    {
        let ghost old_sc = self@.scopes;
        let ghost nm = name@;
        let ghost vm = value@;
        let mut frame = self.scopes_stack.remove(d);
        frame_store(&mut frame, name, value);
        self.scopes_stack.insert(d, frame);
        assert(self@.scopes =~= old_sc.update(d as int, frame_set(old_sc[d as int], nm, vm)));
    }

    /// The value of `name` in the topmost scope that binds it.
    pub fn lookup_variable(&self, name: &String) -> (r: Option<EvalValue<'a>>)
        ensures
            match r {
                Some(v) => lookup(self@.scopes, name@) == Some(v@),
                None => lookup(self@.scopes, name@) is None,
            },
    {
        let ghost sc = self@.scopes;
        let mut d = self.scopes_stack.len();
        while d > 0
            invariant
                sc == self@.scopes,
                d <= self.scopes_stack.len(),
                holder(sc, name@) == holder_from(sc, name@, d - 1),
            decreases d,
        {
            let frame = &self.scopes_stack[d - 1];
            assert(frame_model(frame@) == sc[d - 1]);
            match frame_index(frame, name) {
                Some(i) => {
                    return Some(frame[i].1.duplicate());
                },
                None => {},
            }
            d = d - 1;
        }
        None
    }

    /// The depth of the topmost scope that binds `name`.
    fn holder_depth(&self, name: &String) -> (r: Option<usize>)
        ensures
            match r {
                Some(d) => holder(self@.scopes, name@) == d && d < self.scopes_stack.len(),
                None => holder(self@.scopes, name@) == -1,
            },
    {
        let ghost sc = self@.scopes;
        let mut d = self.scopes_stack.len();
        while d > 0
            invariant
                sc == self@.scopes,
                d <= self.scopes_stack.len(),
                holder(sc, name@) == holder_from(sc, name@, d - 1),
            decreases d,
        {
            assert(frame_model(self.scopes_stack@[d - 1]@) == sc[d - 1]);
            match frame_index(&self.scopes_stack[d - 1], name) {
                Some(_) => {
                    return Some(d - 1);
                },
                None => {},
            }
            d = d - 1;
        }
        None
    }

    /// Assigns `name` in the topmost scope that binds it, or else in the global scope.
    pub fn change_or_create_value(&mut self, name: String, value: EvalValue<'a>)
        requires
            old(self).wf(),
        ensures
            final(self)@ == crate::semantics::with_scopes(old(self)@, assign(old(self)@.scopes, name@, value@)),
            final(self).depth() == old(self).depth(),
            final(self).wf(),
    {
        let d = match self.holder_depth(&name) {
            Some(d) => d,
            None => 0,
        };
        self.store_in(d, name, value);
    }

    /// Adds a table and gives its number.
    pub fn new_table(&mut self, t: Vec<(EvalValue<'a>, EvalValue<'a>)>) -> (r: usize)
        ensures
            final(self)@ == (Store { tables: old(self)@.tables.push(table_model(t@)), ..old(self)@ }),
            r == old(self)@.tables.len(),
            final(self).depth() == old(self).depth(),
    {
        let ghost old_t = self@.tables;
        let r = self.tables.len();
        self.tables.push(t);
        assert(self@.tables =~= old_t.push(table_model(t@)));
        r
    }

    /// The native `print`: writes each argument and a tab, then a newline, and returns `nil`;
    /// fails at the first argument that is a function or a table.
    pub fn print<P, A, S>(&mut self, args: &Vec<EvalValue<'a>>, num: &Numerics<P, A, S>) -> (r: Result<EvalValue<'a>, String>) where
        P: Fn(&str) -> u64,
        A: Fn(ArithOp, u64, u64) -> u64,
        S: Fn(u64) -> String,
        requires
            num.callable(),
        ensures
            final(self).depth() == old(self).depth(),
            forall|m: NumberModel| #[trigger] num.implements(m) ==> call_native(Native::Print, values_model(args@), old(self)@, m) == (final(self)@, value_result(r)),
    {
        let ghost a = values_model(args@);
        let ghost out0 = self.output@;
        let mut i: usize = 0;
        let mut ok = true;
        while ok && i < args.len()
            invariant
                num.callable(),
                a == values_model(args@),
                i <= args.len(),
                self.scopes_stack == old(self).scopes_stack,
                self.tables == old(self).tables,
                ok ==> forall|m: NumberModel| #[trigger] num.implements(m) ==> print_from(a, 0, out0, m) == print_from(a, i as int, self.output@, m),
                !ok ==> forall|m: NumberModel| #[trigger] num.implements(m) ==> print_from(a, 0, out0, m) == (self.output@, false),
            decreases args.len() - i + if ok { 1int } else { 0int },
        {
            let ghost before = self.output@;
            match &args[i] {
                EvalValue::Number(n) => {
                    let t = (num.show)(*n);
                    self.output.push_str(t.as_str());
                },
                EvalValue::Boolean(true) => {
                    self.output.push_str("true");
                    proof { reveal_strlit("true"); }
                    assert(self.output@ =~= before + seq!['t', 'r', 'u', 'e']);
                },
                EvalValue::Boolean(false) => {
                    self.output.push_str("false");
                    proof { reveal_strlit("false"); }
                    assert(self.output@ =~= before + seq!['f', 'a', 'l', 's', 'e']);
                },
                EvalValue::String(s) => {
                    self.output.push_str(s.as_str());
                },
                EvalValue::Nil => {
                    self.output.push_str("nil");
                    proof { reveal_strlit("nil"); }
                    assert(self.output@ =~= before + seq!['n', 'i', 'l']);
                },
                _ => {
                    ok = false;
                },
            }
            if ok {
                let ghost mid = self.output@;
                self.output.push('\t');
                assert forall|m: NumberModel| #[trigger] num.implements(m) implies print_from(a, 0, out0, m) == print_from(a, i + 1, self.output@, m) by {
                    let t = printed(a[i as int], m)->Some_0;
                    assert(mid == before + t);
                    assert(self.output@ =~= before + t.push('\t'));
                }
                i = i + 1;
            }
        }
        if !ok {
            return Err(crate::text::message("Invalid argument"));
        }
        let ghost pre = self.output@;
        assert(a.len() == args.len());
        assert(i >= args.len());
        self.output.push('\n');
        assert forall|m: NumberModel| #[trigger] num.implements(m) implies print_from(a, 0, out0, m) == (self.output@, true) by {
            assert(print_from(a, i as int, pre, m) == (pre.push('\n'), true));
        }
        Ok(EvalValue::Nil)
    }

    /// The value under `key` in table `id`, or `nil`; `None` where there is no such table.
    pub fn table_lookup(&self, id: usize, key: &EvalValue<'a>) -> (r: Option<EvalValue<'a>>)
        ensures
            match r {
                Some(v) => id < self@.tables.len() && v@ == table_get(self@.tables[id as int], key@),
                None => id >= self@.tables.len(),
            },
    {
        if id >= self.tables.len() {
            return None;
        }
        let t = &self.tables[id];
        assert(table_model(t@) == self@.tables[id as int]);
        match key_position(t, key) {
            Some(i) => Some(t[i].1.duplicate()),
            None => Some(EvalValue::Nil),
        }
    }
}

/// The place of the key `k` in table `t`.
fn key_position<'a>(t: &Vec<(EvalValue<'a>, EvalValue<'a>)>, k: &EvalValue<'a>) -> (r: Option<usize>)
    ensures
        match r {
            Some(i) => key_index(table_model(t@), k@, 0) == i && i < t.len(),
            None => key_index(table_model(t@), k@, 0) == -1,
        },
{
    let ghost tm = table_model(t@);
    let mut i: usize = 0;
    while i < t.len()
        invariant
            tm == table_model(t@),
            i <= t.len(),
            key_index(tm, k@, 0) == key_index(tm, k@, i as int),
        decreases t.len() - i,
    {
        if same_key_value(&t[i].0, k) {
            return Some(i);
        }
        i = i + 1;
    }
    None
}

/// Adds `k -> v` to a table under construction, replacing an equal key.
pub fn table_put<'a>(t: &mut Vec<(EvalValue<'a>, EvalValue<'a>)>, k: EvalValue<'a>, v: EvalValue<'a>)
    ensures
        table_model(final(t)@) == table_insert(table_model(old(t)@), k@, v@),
{
    let ghost tm = table_model(t@);
    let ghost km = k@;
    let ghost vm = v@;
    match key_position(t, &k) {
        Some(i) => {
            t.set(i, (k, v));
            assert(table_model(t@) =~= tm.update(i as int, (km, vm)));
        },
        None => {
            t.push((k, v));
            assert(table_model(t@) =~= tm.push((km, vm)));
        },
    }
}

} // verus!
