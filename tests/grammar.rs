use lite::{program, ErrorKind, Node, Operator, Position};

fn lit(i: i128) -> Node {
    Node::Int(i)
}

fn name(s: &str) -> Node {
    Node::Ident {
        ident: s.to_string(),
        args: vec![],
    }
}

fn bin(op: Operator, lhs: Node, rhs: Node) -> Node {
    Node::BinaryExpr {
        op,
        lhs: Box::new(lhs),
        rhs: Box::new(rhs),
    }
}

fn un(op: Operator, child: Node) -> Node {
    Node::UnaryExpr {
        op,
        child: Box::new(child),
    }
}

fn one(src: &str) -> Node {
    let mut items = program(src).unwrap();
    assert_eq!(items.len(), 1);
    items.pop().unwrap()
}

#[test]
fn empty_source_is_empty_program() {
    assert_eq!(program("").unwrap(), vec![]);
    assert_eq!(program("  \n ").unwrap(), vec![]);
}

#[test]
fn subtraction_is_left_associative() {
    assert_eq!(
        one("1 - 2 - 3"),
        bin(Operator::Minus, bin(Operator::Minus, lit(1), lit(2)), lit(3))
    );
    assert_eq!(
        one("8 / 4 / 2"),
        bin(Operator::Divide, bin(Operator::Divide, lit(8), lit(4)), lit(2))
    );
}

#[test]
fn products_bind_tighter_than_sums() {
    assert_eq!(
        one("1 + 2 * 3"),
        bin(Operator::Plus, lit(1), bin(Operator::Multiply, lit(2), lit(3)))
    );
}

#[test]
fn and_binds_tighter_than_or() {
    assert_eq!(
        one("a or b and c"),
        bin(Operator::Or, name("a"), bin(Operator::And, name("b"), name("c")))
    );
}

#[test]
fn prefix_binds_tighter_than_equality() {
    assert_eq!(
        one("!x == y"),
        bin(Operator::Equality, un(Operator::Bang, name("x")), name("y"))
    );
}

#[test]
fn comparison_operators() {
    assert_eq!(one("1 <= 2"), bin(Operator::LessEqual, lit(1), lit(2)));
    assert_eq!(one("1 < 2"), bin(Operator::LessThan, lit(1), lit(2)));
    assert_eq!(one("1 >= 2"), bin(Operator::GreaterEqual, lit(1), lit(2)));
    assert_eq!(one("1 > 2"), bin(Operator::GreaterThan, lit(1), lit(2)));
    assert_eq!(one("1 != 2"), bin(Operator::NotEqual, lit(1), lit(2)));
}

#[test]
fn prefix_runs_cancel_in_pairs() {
    assert_eq!(one("--x"), un(Operator::Plus, name("x")));
    assert_eq!(one("---x"), un(Operator::Minus, name("x")));
    assert_eq!(one("!!b"), un(Operator::Plus, name("b")));
    assert_eq!(one("!b"), un(Operator::Bang, name("b")));
}

#[test]
fn literals() {
    assert_eq!(one("true"), Node::True);
    assert_eq!(one("false"), Node::False);
    assert_eq!(one("1.5"), Node::Float("1.5".into()));
    assert_eq!(one("\"hi there\""), Node::Str("hi there".into()));
    assert_eq!(one("123432"), lit(123432));
}

#[test]
fn value_declaration() {
    assert_eq!(
        one("x = 10"),
        Node::Variable {
            ident: "x".into(),
            param: vec![],
            block: Box::new(lit(10)),
        }
    );
}

#[test]
fn function_declaration_and_call() {
    let items = program("add = fn x y { x + y }\nprint add 2 3").unwrap();
    assert_eq!(
        items,
        vec![
            Node::Variable {
                ident: "add".into(),
                param: vec!["x".into(), "y".into()],
                block: Box::new(Node::Block(vec![bin(Operator::Plus, name("x"), name("y"))])),
            },
            Node::Print(Box::new(Node::Ident {
                ident: "add".into(),
                args: vec![lit(2), lit(3)],
            })),
        ]
    );
}

#[test]
fn reference_then_binary_operator() {
    let items = program("x = 10\nprint x - 4").unwrap();
    assert_eq!(
        items[1],
        Node::Print(Box::new(bin(Operator::Minus, name("x"), lit(4))))
    );
}

#[test]
fn conditional_with_and_without_else() {
    assert_eq!(
        one("if x then 1 else 2"),
        Node::Conditional {
            condition: Box::new(name("x")),
            if_branch: Box::new(lit(1)),
            else_branch: Some(Box::new(lit(2))),
        }
    );
    assert_eq!(
        one("if x then 1"),
        Node::Conditional {
            condition: Box::new(name("x")),
            if_branch: Box::new(lit(1)),
            else_branch: None,
        }
    );
}

#[test]
fn parenthesised_declaration() {
    assert_eq!(
        one("(1 + 2) * 3"),
        bin(Operator::Multiply, bin(Operator::Plus, lit(1), lit(2)), lit(3))
    );
}

#[test]
fn function_literal_argument() {
    assert_eq!(
        one("apply fn a { a }"),
        Node::Ident {
            ident: "apply".into(),
            args: vec![Node::Variable {
                ident: "".into(),
                param: vec!["a".into()],
                block: Box::new(Node::Block(vec![name("a")])),
            }],
        }
    );
}

#[test]
fn parse_error_reports_place_and_kind() {
    // `y` alone is a statement; the text stops parsing at `=`
    let e = program("x = 1\ny = )").unwrap_err();
    assert_eq!(e.error.input, "= )");
    assert_eq!(e.error.code, ErrorKind::Float);
    assert_eq!(e.position, Position::new(1, 2, 8));
}

#[test]
fn integer_literal_too_large() {
    let e = program("170141183460469231731687303715884105728").unwrap_err();
    assert_eq!(e.error.code, ErrorKind::Int);
    assert_eq!(e.position, Position::new(0, 0, 0));
    assert_eq!(
        one("170141183460469231731687303715884105727"),
        lit(170141183460469231731687303715884105727)
    );
}

#[test]
fn comparison_parser_mult_depth() {
    assert_eq!(
        one("1 + 1 + 1 + 1"),
        bin(
            Operator::Plus,
            bin(Operator::Plus, bin(Operator::Plus, lit(1), lit(1)), lit(1)),
            lit(1)
        )
    );
}

#[test]
fn term_parser_mult_depth() {
    assert_eq!(
        one("1 + 1 + 1 + 1"),
        bin(
            Operator::Plus,
            bin(Operator::Plus, bin(Operator::Plus, lit(1), lit(1)), lit(1)),
            lit(1)
        )
    );
}

#[test]
fn equality_parser_mult_depth() {
    assert_eq!(
        one("1 + 1 + 1 + 1"),
        bin(
            Operator::Plus,
            bin(Operator::Plus, bin(Operator::Plus, lit(1), lit(1)), lit(1)),
            lit(1)
        )
    );
}

#[test]
fn factor_parser_mult_depth() {
    assert_eq!(
        one("5 * 2 * 2 / 2"),
        bin(
            Operator::Divide,
            bin(Operator::Multiply, bin(Operator::Multiply, lit(5), lit(2)), lit(2)),
            lit(2)
        )
    );
}

#[test]
fn boolean_parser() {
    assert_eq!(one(" true"), Node::True);
    assert_eq!(one("false"), Node::False);
}

#[test]
fn unary_parser() {
    assert_eq!(one("-123432"), un(Operator::Minus, lit(123432)));
    assert_eq!(one("!true"), un(Operator::Bang, Node::True));
}
