use minilua::interp::interpret;
use minilua::numeric::{ArithOp, Numerics};

fn numerics() -> Numerics<impl Fn(&str) -> u64, impl Fn(ArithOp, u64, u64) -> u64, impl Fn(u64) -> String> {
    Numerics {
        parse: |t: &str| t.parse::<f64>().map(f64::to_bits).unwrap_or(0),
        arith: |op: ArithOp, a: u64, b: u64| {
            let (x, y) = (f64::from_bits(a), f64::from_bits(b));
            let z = match op {
                ArithOp::Add => x + y,
                ArithOp::Subtract => x - y,
                ArithOp::Multiply => x * y,
                ArithOp::Divide => x / y,
            };
            z.to_bits()
        },
        show: |n: u64| format!("{}", f64::from_bits(n)),
    }
}

fn output_of(source: &str) -> String {
    let (out, result) = interpret(source, &numerics());
    assert_eq!(result, Ok(()), "program failed: {}", source);
    out
}

#[test]
fn precedence_in_local_declaration() {
    assert_eq!(output_of("local a = 1 + 2 * 3  print(a)"), "7\t\n");
}

#[test]
fn string_concatenation() {
    assert_eq!(output_of("local s = \"hi\" .. \" \" .. \"there\"  print(s)"), "hi there\t\n");
}

#[test]
fn if_else_takes_true_branch() {
    assert_eq!(output_of("local x = 10  if x > 5 then print(\"big\") else print(\"small\") end"), "big\t\n");
}

#[test]
fn numeric_for_loop() {
    assert_eq!(output_of("for i = 1, 3 do print(i) end"), "1\t\n2\t\n3\t\n");
}

#[test]
fn function_call_returns_sum() {
    assert_eq!(output_of("function add(a, b) return a + b end  print(add(2, 40))"), "42\t\n");
}

#[test]
fn repeat_until_runs_until_true() {
    assert_eq!(output_of("local i = 0  repeat i = i + 1  print(i) until i == 2"), "1\t\n2\t\n");
}

#[test]
fn early_return_from_nested_if() {
    assert_eq!(output_of("function f() if true then return 99 end return 1 end  print(f())"), "99\t\n");
}

#[test]
fn print_writes_each_kind_of_value() {
    assert_eq!(output_of("print(1.5, true, false, nil, \"s\")"), "1.5\ttrue\tfalse\tnil\ts\t\n");
    assert_eq!(output_of("print()"), "\n");
}

#[test]
fn print_rejects_tables_and_functions() {
    let (out, result) = interpret("print(1, {2})", &numerics());
    assert!(result.is_err());
    assert_eq!(out, "1\t");
    let (_, result) = interpret("function f() end print(f)", &numerics());
    assert!(result.is_err());
}

#[test]
fn division_by_zero_gives_infinity() {
    assert_eq!(output_of("print(1 / 0)"), "inf\t\n");
}

#[test]
fn while_loop_counts() {
    assert_eq!(output_of("local n = 0 while n < 3 do n = n + 1 end print(n)"), "3\t\n");
}

#[test]
fn elseif_chain_picks_first_true() {
    assert_eq!(
        output_of("local x = 2 if x == 1 then print(1) elseif x == 2 then print(2) elseif x == 2 then print(3) else print(4) end"),
        "2\t\n"
    );
    assert_eq!(output_of("if false then print(1) elseif false then print(2) else print(4) end"), "4\t\n");
}

#[test]
fn for_loop_with_step() {
    assert_eq!(output_of("for i = 10, 1, 0 - 4 do print(i) end"), "");
    assert_eq!(output_of("for i = 1, 6, 2 do print(i) end"), "1\t\n3\t\n5\t\n");
}

#[test]
fn return_inside_loops_stops_everything() {
    let source = "function f() for i = 1, 10 do local go = true while go do repeat if i == 3 then return i * 10 end print(i) until true go = false end end print(0) end print(f())";
    assert_eq!(output_of(source), "1\t\n2\t\n30\t\n");
}

#[test]
fn local_inside_block_is_invisible_after_it() {
    assert_eq!(output_of("if true then local x = 1 end print(x)"), "nil\t\n");
    assert_eq!(output_of("local x = 5 if true then local x = 1 end print(x)"), "5\t\n");
}

#[test]
fn assignment_in_block_creates_global() {
    assert_eq!(output_of("if true then x = 1 end print(x)"), "1\t\n");
    assert_eq!(output_of("function g() y = 7 end g() print(y)"), "7\t\n");
}

#[test]
fn assignment_updates_nearest_binding() {
    assert_eq!(output_of("local x = 1 if true then x = 2 end print(x)"), "2\t\n");
}

#[test]
fn functions_see_the_callers_scope() {
    assert_eq!(output_of("function show() print(v) end local v = 3 show()"), "3\t\n");
}

#[test]
fn wrong_argument_count_is_an_error() {
    let (_, result) = interpret("function f(a) return a end print(f(1, 2))", &numerics());
    assert!(result.is_err());
    let (_, result) = interpret("function f(a) return a end print(f())", &numerics());
    assert!(result.is_err());
    assert_eq!(output_of("function f(a) return a end print(f(1))"), "1\t\n");
}

#[test]
fn calling_an_unknown_function_is_an_error() {
    let (_, result) = interpret("nothing(1)", &numerics());
    assert_eq!(result, Err("Function 'nothing' not found".to_string()));
    let (_, result) = interpret("local x = 1 x()", &numerics());
    assert!(result.is_err());
}

#[test]
fn mixed_operand_types_are_errors() {
    for source in ["print(1 + \"a\")", "print(\"a\" + \"b\")", "print(true < false)", "print(1 .. 2)", "print(nil == nil)"] {
        let (_, result) = interpret(source, &numerics());
        assert!(result.is_err(), "{}", source);
    }
}

#[test]
fn comparisons_on_numbers_strings_and_booleans() {
    assert_eq!(
        output_of("print(1 < 2, 2 <= 2, 3 > 4, 4 >= 5, 1 == 1, 1 ~= 1, \"a\" == \"a\", \"a\" ~= \"b\", true == false)"),
        "true\ttrue\tfalse\tfalse\ttrue\tfalse\ttrue\ttrue\tfalse\t\n"
    );
}

#[test]
fn nan_compares_unequal() {
    assert_eq!(output_of("local n = 0 / 0 print(n == n, n ~= n, n < 1, n >= 1)"), "false\ttrue\tfalse\tfalse\t\n");
}

#[test]
fn zero_and_empty_string_are_true() {
    assert_eq!(output_of("if 0 then print(1) end if \"\" then print(2) end if nil then print(3) end if false then print(4) end"), "1\t\n2\t\n");
}

#[test]
fn top_level_return_is_discarded() {
    assert_eq!(output_of("return 1 print(2)"), "2\t\n");
}

#[test]
fn runtime_error_keeps_earlier_output() {
    let (out, result) = interpret("print(1) print(1 + true) print(2)", &numerics());
    assert!(result.is_err());
    assert_eq!(out, "1\t\n");
}

#[test]
fn syntax_error_runs_nothing() {
    let (out, result) = interpret("print(1) local = 2", &numerics());
    assert!(result.is_err());
    assert_eq!(out, "");
}

#[test]
fn non_number_step_is_an_error() {
    let (_, result) = interpret("for i = 1, 2, \"x\" do print(i) end", &numerics());
    assert!(result.is_err());
}

#[test]
fn table_literal_values_are_tables() {
    let (_, result) = interpret("local t = {1, 2, 3} print(t)", &numerics());
    assert!(result.is_err());
    assert_eq!(output_of("local t = {1, 2} local u = t print(1)"), "1\t\n");
}

#[test]
fn comments_are_skipped() {
    assert_eq!(output_of("-- a comment\nprint(1) -- another\nprint(2)"), "1\t\n2\t\n");
}
