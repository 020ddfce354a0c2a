use minilua::ast::{BinaryOperator, Expression, Statement};
use minilua::parser::Parser;

fn parse(source: &str) -> Result<Vec<Statement>, String> {
    Parser::new(source).parse()
}

fn num(t: &str) -> Expression {
    Expression::NumberLiteral(t.to_string())
}

fn var(n: &str) -> Expression {
    Expression::IdentifierExpression(n.to_string())
}

fn bin(l: Expression, op: BinaryOperator, r: Expression) -> Expression {
    Expression::BinaryExpression(Box::new(l), op, Box::new(r))
}

fn expression_of(source: &str) -> Expression {
    match parse(&format!("x = {}", source)).unwrap().remove(0) {
        Statement::AssigmentStatement(_, e) => *e,
        other => panic!("unexpected statement {:?}", other),
    }
}

#[test]
fn multiplication_binds_tighter_than_addition() {
    assert_eq!(
        expression_of("1 + 2 * 3"),
        bin(num("1"), BinaryOperator::Add, bin(num("2"), BinaryOperator::Multiply, num("3")))
    );
    assert_eq!(
        expression_of("4 * 5 + 6"),
        bin(bin(num("4"), BinaryOperator::Multiply, num("5")), BinaryOperator::Add, num("6"))
    );
}

#[test]
fn operators_are_left_associative() {
    assert_eq!(
        expression_of("1 - 2 - 3"),
        bin(bin(num("1"), BinaryOperator::Subtract, num("2")), BinaryOperator::Subtract, num("3"))
    );
    assert_eq!(
        expression_of("a .. b .. c"),
        bin(bin(var("a"), BinaryOperator::Concat, var("b")), BinaryOperator::Concat, var("c"))
    );
}

#[test]
fn comparison_is_the_loosest_band() {
    assert_eq!(
        expression_of("a + 1 <= b * 2"),
        bin(
            bin(var("a"), BinaryOperator::Add, num("1")),
            BinaryOperator::LessEqual,
            bin(var("b"), BinaryOperator::Multiply, num("2"))
        )
    );
}

#[test]
fn parentheses_group() {
    assert_eq!(
        expression_of("(1 + 2) * 3"),
        bin(bin(num("1"), BinaryOperator::Add, num("2")), BinaryOperator::Multiply, num("3"))
    );
}

#[test]
fn calls_take_zero_or_more_arguments() {
    assert_eq!(expression_of("f()"), Expression::FunctionCall("f".to_string(), vec![]));
    assert_eq!(
        expression_of("f(1, g(2))"),
        Expression::FunctionCall(
            "f".to_string(),
            vec![num("1"), Expression::FunctionCall("g".to_string(), vec![num("2")])]
        )
    );
}

#[test]
fn table_entries_get_keys_from_one() {
    assert_eq!(
        expression_of("{7, 8, }"),
        Expression::TableLiteral(vec![(num("1"), num("7")), (num("2"), num("8"))])
    );
    assert_eq!(expression_of("{}"), Expression::TableLiteral(vec![]));
}

#[test]
fn parses_each_statement_form() {
    let program = parse(
        "local a = 1 a = 2 f(a) while a do end repeat until a for i = 1, 2 do end for j = 1, 2, 3 do end \
         if a then elseif b then else end function g(p, q) return p end",
    )
    .unwrap();
    assert_eq!(program.len(), 9);
    assert_eq!(program[0], Statement::LocalVariableDeclaration("a".to_string(), Box::new(num("1"))));
    assert_eq!(program[1], Statement::AssigmentStatement("a".to_string(), Box::new(num("2"))));
    assert_eq!(
        program[2],
        Statement::ExpressionStatement(Box::new(Expression::FunctionCall("f".to_string(), vec![var("a")])))
    );
    assert_eq!(program[3], Statement::WhileLoop { loop_condition: Box::new(var("a")), code_block: vec![] });
    assert_eq!(program[4], Statement::RepeatUntilLoop { code_block: vec![], loop_condition: Box::new(var("a")) });
    assert_eq!(
        program[5],
        Statement::ForLoop {
            iterator_identifier: "i".to_string(),
            starting_value: Box::new(num("1")),
            ending_value: Box::new(num("2")),
            step_value: Box::new(num("1")),
            code_block: vec![],
        }
    );
    match &program[6] {
        Statement::ForLoop { step_value, .. } => assert_eq!(**step_value, num("3")),
        other => panic!("unexpected statement {:?}", other),
    }
    assert_eq!(
        program[7],
        Statement::IfStatement {
            basic_condition: Box::new(var("a")),
            code_block: vec![],
            elseif_statements: vec![(Box::new(var("b")), vec![])],
            else_block: Some(vec![]),
        }
    );
    assert_eq!(
        program[8],
        Statement::FunctionDeclaration {
            function_name: "g".to_string(),
            function_arguments: vec!["p".to_string(), "q".to_string()],
            function_body: vec![Statement::ReturnStatement(Box::new(var("p")))],
        }
    );
}

#[test]
fn functions_may_have_no_parameters() {
    assert_eq!(
        parse("function f() end"),
        Ok(vec![Statement::FunctionDeclaration {
            function_name: "f".to_string(),
            function_arguments: vec![],
            function_body: vec![],
        }])
    );
}

#[test]
fn parsing_twice_gives_the_same_tree() {
    let source = "local x = 1 + 2 * 3 if x > 5 then print(x) end";
    assert_eq!(parse(source), parse(source));
}

#[test]
fn syntax_errors_are_reported() {
    for source in ["local = 1", "if x then", "while x end", "for i = 1 do end", "(1", "1 + 2", "x = ", "function (a) end", "end", "f(1"] {
        assert!(parse(source).is_err(), "{}", source);
    }
}

#[test]
fn lexical_errors_stop_parsing() {
    assert!(parse("x = 1.2.3").is_err());
}
