use lite::env::copy_env;
use lite::{eval, program, run_items, Environment, EvalError, Node, Operator, Report, Value, MAX_DEPTH};

fn run(src: &str) -> (Vec<Report>, Environment) {
    let items = program(src).unwrap();
    let mut env = Environment::new();
    let reports = run_items(&items, &mut env);
    (reports, env)
}

fn printed(reports: &[Report]) -> String {
    let mut out = String::new();
    for r in reports {
        if let Report::Printed(line) = r {
            out.push_str(line);
            out.push('\n');
        }
    }
    out
}

fn last(src: &str) -> Report {
    let (mut reports, _) = run(src);
    reports.pop().unwrap()
}

fn name(s: &str) -> Node {
    Node::Ident {
        ident: s.to_string(),
        args: vec![],
    }
}

#[test]
fn scenario_print_arithmetic() {
    let (reports, _) = run("print 1 + 2 * 3");
    assert_eq!(printed(&reports), "7\n");
    assert_eq!(reports.len(), 1);
}

#[test]
fn scenario_value_binding() {
    let (reports, _) = run("x = 10\nprint x - 4");
    assert_eq!(printed(&reports), "6\n");
    assert_eq!(reports.len(), 1);
}

#[test]
fn scenario_function_call() {
    let (reports, _) = run("add = fn x y { x + y }\nprint add 2 3");
    assert_eq!(printed(&reports), "5\n");
    assert_eq!(reports.len(), 1);
}

#[test]
fn scenario_print_conditional() {
    let (reports, _) = run("print if true then \"yes\" else \"no\"");
    assert_eq!(printed(&reports), "yes\n");
    assert_eq!(reports.len(), 1);
}

#[test]
fn scenario_rebinding_is_an_error() {
    let (reports, _) = run("x = 1\nx = 2");
    assert_eq!(reports, vec![Report::Failed(EvalError::Mutations("x".into()))]);
    let message = EvalError::Mutations("x".into()).message();
    assert!(message.contains("`x`"));
    assert!(message.contains("Mutation"));
}

#[test]
fn scenario_string_concatenation() {
    let (reports, _) = run("print \"hi\" + \" \" + \"there\"");
    assert_eq!(printed(&reports), "hi there\n");
}

#[test]
fn execute_block_test() {
    let mut env = Environment::new();
    let func = Node::Variable {
        ident: "add".into(),
        param: vec!["x".into(), "y".into()],
        block: Box::new(Node::BinaryExpr {
            op: Operator::Plus,
            rhs: Box::new(Node::UnaryExpr {
                op: Operator::Plus,
                child: Box::new(name("x")),
            }),
            lhs: Box::new(Node::UnaryExpr {
                op: Operator::Plus,
                child: Box::new(name("y")),
            }),
        }),
    };

    env.insert("add".to_string(), func);
    let func_call = Node::Ident {
        ident: "add".into(),

        args: vec![
            Node::UnaryExpr {
                op: Operator::Plus,
                child: Box::new(Node::Int(1)),
            },
            Node::UnaryExpr {
                op: Operator::Plus,
                child: Box::new(Node::Int(2)),
            },
        ],
    };
    let mut out = Vec::new();
    let value = eval(func_call, copy_env(&env), &mut out);
    assert_eq!(value, Ok((Value::Int(3), env)));
}

#[test]
fn rebinding_in_same_env() {
    let env = Environment::new();
    let mut out = Vec::new();
    let first = Node::Variable {
        ident: "x".into(),
        param: vec![],
        block: Box::new(Node::Int(1)),
    };
    let second = Node::Variable {
        ident: "x".into(),
        param: vec![],
        block: Box::new(Node::Int(2)),
    };
    let env = match eval(first, env, &mut out) {
        Ok((Value::NONE, e)) => e,
        other => panic!("unexpected {:?}", other),
    };
    let before = copy_env(&env);
    match eval(second, env, &mut out) {
        Err((EvalError::Mutations(n), e)) => {
            assert_eq!(n, "x");
            assert_eq!(e, before);
        }
        other => panic!("unexpected {:?}", other),
    }
}

#[test]
fn declaration_extends_env() {
    let (_, env) = run("x = 1\ny = fn a { a }");
    assert!(env.contains("x"));
    assert!(env.contains("y"));
    assert_eq!(env.len(), 2);
}

#[test]
fn pure_expression_keeps_env() {
    let (_, env) = run("x = 1");
    let before = copy_env(&env);
    let mut out = Vec::new();
    let node = program("x + 2").unwrap().pop().unwrap();
    assert_eq!(eval(node, env, &mut out), Ok((Value::Int(3), before)));
}

#[test]
fn error_keeps_env_for_continuation() {
    let (reports, env) = run("x = 1\ny\nz = x + 1\nprint z");
    assert_eq!(reports[0], Report::Failed(EvalError::UnKnownIdent("y".into())));
    assert_eq!(printed(&reports), "2\n");
    assert!(env.contains("z"));
}

#[test]
fn block_names_stay_inside() {
    let (reports, env) = run("{ y = 1 }\ny");
    assert_eq!(reports, vec![Report::Failed(EvalError::UnKnownIdent("y".into()))]);
    assert_eq!(env.len(), 0);
    assert_eq!(last("{ a = 2\n a * 3 }"), Report::Value(Value::Int(6)));
    assert_eq!(last("x = 1\n{ x = 2\n x }"), Report::Value(Value::Int(2)));
}

#[test]
fn type_discipline() {
    assert!(matches!(last("1 + 1.0"), Report::Failed(EvalError::TypeError(_))));
    assert_eq!(last("\"a\" + \"b\""), Report::Value(Value::String("ab".into())));
    assert!(matches!(last("\"a\" - \"b\""), Report::Failed(EvalError::TypeError(_))));
    assert!(matches!(last("true and 1"), Report::Failed(EvalError::MismatchedType(_))));
    assert!(matches!(last("1 and 2"), Report::Failed(EvalError::MismatchedType(_))));
}

#[test]
fn integer_arithmetic() {
    assert_eq!(last("7 / 2"), Report::Value(Value::Int(3)));
    assert_eq!(last("0 - 7 / 2"), Report::Value(Value::Int(-3)));
    assert_eq!(last("-7 / 2"), Report::Value(Value::Int(-3)));
    assert_eq!(last("2 * 3 - 10"), Report::Value(Value::Int(-4)));
    assert_eq!(last("3 == 3"), Report::Value(Value::Bool(true)));
    assert_eq!(last("3 != 3"), Report::Value(Value::Bool(false)));
    assert_eq!(last("2 < 3"), Report::Value(Value::Bool(true)));
    assert_eq!(last("2 >= 3"), Report::Value(Value::Bool(false)));
}

#[test]
fn boolean_operators() {
    assert_eq!(last("true and false"), Report::Value(Value::Bool(false)));
    assert_eq!(last("true or false"), Report::Value(Value::Bool(true)));
    assert_eq!(last("false < true"), Report::Value(Value::Bool(true)));
    assert_eq!(last("true > true"), Report::Value(Value::Bool(false)));
    assert_eq!(last("!true"), Report::Value(Value::Bool(false)));
    assert!(matches!(last("true + true"), Report::Failed(EvalError::SyntaxError(_))));
}

#[test]
fn division_by_zero_is_an_error() {
    assert!(matches!(last("1 / 0"), Report::Failed(EvalError::ArithmeticError(_))));
}

#[test]
fn overflow_is_an_error() {
    assert!(matches!(
        last("170141183460469231731687303715884105727 + 1"),
        Report::Failed(EvalError::ArithmeticError(_))
    ));
}

#[test]
fn unknown_name() {
    assert_eq!(last("nope"), Report::Failed(EvalError::UnKnownIdent("nope".into())));
}

#[test]
fn wrong_number_of_arguments() {
    assert_eq!(
        last("add = fn x y { x + y }\nadd 1"),
        Report::Failed(EvalError::FunctionParameters(2, 1))
    );
}

#[test]
fn unbounded_recursion_is_stopped() {
    assert_eq!(
        last("f = fn x { f x }\nf 1"),
        Report::Failed(EvalError::RecursionLimit(MAX_DEPTH))
    );
}

#[test]
fn unary_errors() {
    assert!(matches!(last("!1"), Report::Failed(EvalError::SyntaxError(_))));
    assert!(matches!(last("-\"a\""), Report::Failed(EvalError::TypeError(_))));
    assert!(matches!(last("if 1 then 2"), Report::Failed(EvalError::TypeError(_))));
}

#[test]
fn conditional_without_taken_branch_is_unit() {
    let (reports, _) = run("if false then 1");
    assert_eq!(reports, vec![]);
    assert_eq!(last("if false then 1 else 2"), Report::Value(Value::Int(2)));
}

#[test]
fn arguments_are_evaluated_when_used() {
    let (reports, _) = run("f = fn a { 1 }\nf (print 5)");
    assert_eq!(printed(&reports), "");
    let (reports, _) = run("g = fn a { a\n a }\ng (print 5)");
    assert_eq!(printed(&reports), "5\n5\n");
}

#[test]
fn arguments_are_evaluated_where_written() {
    let (reports, _) = run("x = 3\nf = fn x { x * 2 }\nprint f x");
    assert_eq!(printed(&reports), "6\n");
}

#[test]
fn recursive_function() {
    let (reports, _) = run("fact = fn n { if n < 1 then 1 else n * fact (n - 1) }\nprint fact 5");
    assert_eq!(printed(&reports), "120\n");
}

#[test]
fn function_argument_is_callable() {
    let (reports, _) = run("apply = fn f v { f v }\nprint apply fn a { a + 1 } 41");
    assert_eq!(printed(&reports), "42\n");
}

#[test]
fn printing_values() {
    let (reports, _) = run("print -5\nprint 1.5\nprint -1.5\nprint true\nprint \"s\"");
    assert_eq!(printed(&reports), "-5\n1.5\n-1.5\ntrue\ns\n");
}

#[test]
fn float_arithmetic_is_refused() {
    assert!(matches!(last("1.5 + 2.5"), Report::Failed(EvalError::TypeError(_))));
    assert_eq!(last("--1.5"), Report::Value(Value::Float("1.5".into())));
}

#[test]
fn function_body_sees_its_declaration_scope() {
    assert_eq!(
        last("f = fn a { y }\n{ y = 1\n f 0 }"),
        Report::Failed(EvalError::UnKnownIdent("y".into()))
    );
    let (reports, _) = run("y = 5\nf = fn a { y + a }\n{ y = 1\n print f 2 }");
    assert_eq!(printed(&reports), "7\n");
}

#[test]
fn value_binding_sees_its_declaration_scope() {
    let (reports, _) = run("x = 1\nv = x\n{ x = 2\n print v }");
    assert_eq!(printed(&reports), "1\n");
}

#[test]
fn later_declarations_are_not_seen() {
    assert_eq!(
        last("f = fn a { g }\ng = 1\nf 0"),
        Report::Failed(EvalError::UnKnownIdent("g".into()))
    );
}

#[test]
fn recursion_a_hundred_deep() {
    let (reports, _) = run("count = fn n { if n < 1 then 0 else 1 + count (n - 1) }\nprint count 100");
    assert_eq!(printed(&reports), "100\n");
}
