use vstd::prelude::*;
use crate::eval::{run_program, unit_result};
use crate::numeric::{ArithOp, NumberModel, Numerics};
use crate::parser::{Parser, program_source};
use crate::vm::{VirtualMachine, initial_store};

verus! {

/// Parses and runs a program on a new machine: the text that `print` wrote, and whether the
/// program parsed and ran without error.
pub fn interpret<P, A, S>(source: &str, num: &Numerics<P, A, S>) -> (r: (String, Result<(), String>)) where
    P: Fn(&str) -> u64,
    A: Fn(ArithOp, u64, u64) -> u64,
    S: Fn(u64) -> String,
    requires
        num.callable(),
    ensures
        forall|m: NumberModel| #[trigger] num.implements(m) ==> match program_source(source@) {
            Ok(p) => r.0@ == run_program(p, initial_store(), m).0.output && unit_result(r.1) == run_program(p, initial_store(), m).1,
            Err(_) => r.0@ == Seq::<char>::empty() && r.1 is Err,
        },
{
    let mut parser = Parser::new(source);
    match parser.parse() {
        Err(e) => (String::new(), Err(e)),
        Ok(ast) => {
            let mut vm = VirtualMachine::new();
            let res = vm.execute(&ast, num);
            let out = vm.output().clone();
            (out, res)
        },
    }
}

} // verus!
