use lite::{EvalError, KeyWord, Operator, Position, Span, Value};

#[test]
fn positions_move() {
    let mut p = Position::new(0, 0, 0);
    p.right_shift();
    p.right_shift();
    assert_eq!(p, Position::new(0, 2, 2));
    p.new_line();
    assert_eq!(p, Position::new(1, 0, 3));
    assert_eq!(p.into_span(), Span::new(p, p));
    assert_eq!(Position::default(), Position::new(0, 0, 0));
}

#[test]
fn keyword_lookup() {
    assert_eq!(KeyWord::lookup("print"), Some(KeyWord::Print));
    assert_eq!(KeyWord::lookup("true"), Some(KeyWord::True));
    assert_eq!(KeyWord::lookup("else"), Some(KeyWord::Else));
    assert_eq!(KeyWord::lookup("prints"), None);
    assert_eq!(KeyWord::lookup("then"), None);
    assert_eq!(KeyWord::lookup(""), None);
}

#[test]
fn operator_text() {
    assert_eq!(Operator::LessEqual.symbol(), "<=");
    assert_eq!(Operator::And.symbol(), "and");
    assert_eq!(Operator::Bang.symbol(), "!");
    assert_eq!(Operator::GreaterThan.name(), "GreaterThan");
    assert_eq!(Operator::Plus.name(), "Plus");
}

#[test]
fn value_text_and_type() {
    assert_eq!(Value::Int(-42).to_text(), "-42");
    assert_eq!(Value::Int(0).to_text(), "0");
    assert_eq!(
        Value::Int(i128::MIN).to_text(),
        "-170141183460469231731687303715884105728"
    );
    assert_eq!(Value::Bool(true).to_text(), "true");
    assert_eq!(Value::NONE.to_text(), "NONE");
    assert_eq!(Value::Float("2.50".into()).to_text(), "2.50");
    assert_eq!(Value::Int(1).value_type(), "Int");
    assert_eq!(Value::Float("1.0".into()).value_type(), "Float");
    assert_eq!(Value::String("a".into()).value_type(), "String");
    assert_eq!(Value::Bool(false).value_type(), "Bool");
    assert_eq!(Value::NONE.value_type(), "NONE");
}

#[test]
fn error_messages() {
    assert_eq!(
        EvalError::Mutations("x".into()).message(),
        "Mutation is not allowed! Variable `x` already exists."
    );
    assert_eq!(
        EvalError::FunctionParameters(2, 1).message(),
        "Function Parameter do not match with calling arguments. Expected: 2 but got 1"
    );
    assert_eq!(EvalError::UnKnownIdent("q".into()).message(), "UnKnownIdent: q");
}

#[test]
fn environment_binds_once() {
    let mut env = lite::Environment::new();
    assert!(env.insert("a".into(), lite::Node::Int(1)));
    assert!(!env.insert("a".into(), lite::Node::Int(2)));
    assert_eq!(env.get("a"), Some(&lite::Node::Int(1)));
    assert_eq!(env.get("b"), None);
}
