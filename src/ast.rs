use vstd::prelude::*;
use crate::text::same_text;

verus! {

broadcast use vstd::std_specs::vec::group_vec_axioms;

/// The language's operators, unary and binary.
#[derive(PartialEq, Eq, Structural, Debug, Copy, Clone)]
pub enum Operator {
    Plus,
    Minus,
    Multiply,
    Divide,
    Bang,
    Equality,
    NotEqual,
    GreaterThan,
    GreaterEqual,
    LessThan,
    LessEqual,
    Or,
    And,
}

/// How an operator is written in source text.
pub open spec fn symbol_text(op: Operator) -> Seq<char> {
    match op {
        Operator::Plus => "+"@,
        Operator::Minus => "-"@,
        Operator::Multiply => "*"@,
        Operator::Divide => "/"@,
        Operator::Bang => "!"@,
        Operator::Equality => "=="@,
        Operator::NotEqual => "!="@,
        Operator::GreaterThan => ">"@,
        Operator::GreaterEqual => ">="@,
        Operator::LessThan => "<"@,
        Operator::LessEqual => "<="@,
        Operator::Or => "or"@,
        Operator::And => "and"@,
    }
}

/// The operator's name.
pub open spec fn name_text(op: Operator) -> Seq<char> {
    match op {
        Operator::Plus => "Plus"@,
        Operator::Minus => "Minus"@,
        Operator::Multiply => "Multiply"@,
        Operator::Divide => "Divide"@,
        Operator::Bang => "Bang"@,
        Operator::Equality => "Equality"@,
        Operator::NotEqual => "NotEqual"@,
        Operator::GreaterThan => "GreaterThan"@,
        Operator::GreaterEqual => "GreaterEqual"@,
        Operator::LessThan => "LessThan"@,
        Operator::LessEqual => "LessEqual"@,
        Operator::Or => "Or"@,
        Operator::And => "And"@,
    }
}

impl Operator {
    pub fn symbol(&self) -> (r: &'static str)
        ensures
            r@ == symbol_text(*self),
    {
        match self {
            Operator::Plus => "+",
            Operator::Minus => "-",
            Operator::Multiply => "*",
            Operator::Divide => "/",
            Operator::Bang => "!",
            Operator::Equality => "==",
            Operator::NotEqual => "!=",
            Operator::GreaterThan => ">",
            Operator::GreaterEqual => ">=",
            Operator::LessThan => "<",
            Operator::LessEqual => "<=",
            Operator::Or => "or",
            Operator::And => "and",
        }
    }

    pub fn name(&self) -> (r: &'static str)
        ensures
            r@ == name_text(*self),
    {
        match self {
            Operator::Plus => "Plus",
            Operator::Minus => "Minus",
            Operator::Multiply => "Multiply",
            Operator::Divide => "Divide",
            Operator::Bang => "Bang",
            Operator::Equality => "Equality",
            Operator::NotEqual => "NotEqual",
            Operator::GreaterThan => "GreaterThan",
            Operator::GreaterEqual => "GreaterEqual",
            Operator::LessThan => "LessThan",
            Operator::LessEqual => "LessEqual",
            Operator::Or => "Or",
            Operator::And => "And",
        }
    }
}

/// Reserved words of the language.
#[derive(PartialEq, Eq, Structural, Debug, Copy, Clone)]
pub enum KeyWord {
    False,
    Fn,
    If,
    Or,
    Print,
    Return,
    True,
    Let,
    And,
    Else,
}

/// The reserved word spelled `s`, if any.
pub open spec fn keyword_of(s: Seq<char>) -> Option<KeyWord> {
    if s == "true"@ {
        Some(KeyWord::True)
    } else if s == "false"@ {
        Some(KeyWord::False)
    } else if s == "fn"@ {
        Some(KeyWord::Fn)
    } else if s == "if"@ {
        Some(KeyWord::If)
    } else if s == "or"@ {
        Some(KeyWord::Or)
    } else if s == "print"@ {
        Some(KeyWord::Print)
    } else if s == "return"@ {
        Some(KeyWord::Return)
    } else if s == "let"@ {
        Some(KeyWord::Let)
    } else if s == "and"@ {
        Some(KeyWord::And)
    } else if s == "else"@ {
        Some(KeyWord::Else)
    } else {
        None
    }
}

impl KeyWord {
    pub fn lookup(name: &str) -> (r: Option<KeyWord>)
        ensures
            r == keyword_of(name@),
    {
        if same_text(name, "true") {
            Some(KeyWord::True)
        } else if same_text(name, "false") {
            Some(KeyWord::False)
        } else if same_text(name, "fn") {
            Some(KeyWord::Fn)
        } else if same_text(name, "if") {
            Some(KeyWord::If)
        } else if same_text(name, "or") {
            Some(KeyWord::Or)
        } else if same_text(name, "print") {
            Some(KeyWord::Print)
        } else if same_text(name, "return") {
            Some(KeyWord::Return)
        } else if same_text(name, "let") {
            Some(KeyWord::Let)
        } else if same_text(name, "and") {
            Some(KeyWord::And)
        } else if same_text(name, "else") {
            Some(KeyWord::Else)
        } else {
            None
        }
    }
}

/// A node of the syntax tree.
///
/// `Ident` with arguments is a call site; `Variable` with parameters declares
/// a function, without them a value. A float literal keeps its source text.
#[derive(Debug, PartialEq)]
pub enum Node {
    Print(Box<Node>),
    Ident { ident: String, args: Vec<Node> },
    Variable { ident: String, param: Vec<String>, block: Box<Node> },
    True,
    False,
    Int(i128),
    Float(String),
    Str(String),
    Block(Vec<Node>),
    Conditional { condition: Box<Node>, if_branch: Box<Node>, else_branch: Option<Box<Node>> },
    UnaryExpr { op: Operator, child: Box<Node> },
    BinaryExpr { op: Operator, lhs: Box<Node>, rhs: Box<Node> },
}

/// The mathematical model of a syntax tree node.
pub enum Ast {
    Print(Box<Ast>),
    Ident { name: Seq<char>, args: Seq<Ast> },
    Variable { name: Seq<char>, params: Seq<Seq<char>>, body: Box<Ast> },
    Bool(bool),
    Int(int),
    Float(Seq<char>),
    Str(Seq<char>),
    Block(Seq<Ast>),
    Conditional { cond: Box<Ast>, then: Box<Ast>, els: Option<Box<Ast>> },
    Unary { op: Operator, child: Box<Ast> },
    Binary { op: Operator, lhs: Box<Ast>, rhs: Box<Ast> },
}

pub open spec fn names_view(s: Seq<String>) -> Seq<Seq<char>> {
    s.map_values(|x: String| x@)
}

pub open spec fn nodes_view(s: Seq<Node>) -> Seq<Ast>
    decreases s,
{
    if s.len() == 0 {
        Seq::empty()
    } else {
        nodes_view(s.drop_last()).push(node_view(s.last()))
    }
}

pub open spec fn node_view(n: Node) -> Ast
    decreases n,
{
    match n {
        Node::Print(e) => Ast::Print(Box::new(node_view(*e))),
        Node::Ident { ident, args } => Ast::Ident { name: ident@, args: nodes_view(args@) },
        Node::Variable { ident, param, block } => Ast::Variable {
            name: ident@,
            params: names_view(param@),
            body: Box::new(node_view(*block)),
        },
        Node::True => Ast::Bool(true),
        Node::False => Ast::Bool(false),
        Node::Int(i) => Ast::Int(i as int),
        Node::Float(t) => Ast::Float(t@),
        Node::Str(t) => Ast::Str(t@),
        Node::Block(items) => Ast::Block(nodes_view(items@)),
        Node::Conditional { condition, if_branch, else_branch } => Ast::Conditional {
            cond: Box::new(node_view(*condition)),
            then: Box::new(node_view(*if_branch)),
            els: match else_branch {
                Some(e) => Some(Box::new(node_view(*e))),
                None => None,
            },
        },
        Node::UnaryExpr { op, child } => Ast::Unary { op, child: Box::new(node_view(*child)) },
        Node::BinaryExpr { op, lhs, rhs } => Ast::Binary {
            op,
            lhs: Box::new(node_view(*lhs)),
            rhs: Box::new(node_view(*rhs)),
        },
    }
}

impl View for Node {
    type V = Ast;

    open spec fn view(&self) -> Ast {
        node_view(*self)
    }
}

pub proof fn lemma_nodes_view_len(s: Seq<Node>)
    ensures
        nodes_view(s).len() == s.len(),
    decreases s.len(),
{
    if s.len() > 0 {
        lemma_nodes_view_len(s.drop_last());
    }
}

pub proof fn lemma_nodes_view_index(s: Seq<Node>, i: int)
    requires
        0 <= i < s.len(),
    ensures
        nodes_view(s)[i] == node_view(s[i]),
    decreases s.len(),
{
    lemma_nodes_view_len(s.drop_last());
    if i < s.len() - 1 {
        lemma_nodes_view_index(s.drop_last(), i);
    }
}

pub proof fn lemma_names_view_push(s: Seq<String>, n: String)
    ensures
        names_view(s.push(n)) == names_view(s).push(n@),
{
    assert(names_view(s.push(n)) =~= names_view(s).push(n@));
}

pub proof fn lemma_nodes_view_push(s: Seq<Node>, n: Node)
    ensures
        nodes_view(s.push(n)) == nodes_view(s).push(node_view(n)),
{
    assert(s.push(n).drop_last() =~= s);
}

/// A copy of `s`.
fn copy_text(s: &String) -> (r: String)
    ensures
        r@ == s@,
{
    s.clone()
}

/// A copy of the names in `v`.
pub fn copy_names(v: &Vec<String>) -> (r: Vec<String>)
    ensures
        names_view(r@) == names_view(v@),
{
    let mut out: Vec<String> = Vec::new();
    let mut i: usize = 0;
    while i < v.len()
        invariant
            i <= v@.len(),
            out@.len() == i,
            forall|k: int| 0 <= k < i ==> #[trigger] out@[k]@ == v@[k]@,
        decreases v@.len() - i,
    {
        out.push(copy_text(&v[i]));
        i = i + 1;
    }
    assert(names_view(out@) =~= names_view(v@));
    out
}

/// A copy of the nodes in `v`.
pub fn copy_nodes(v: &Vec<Node>) -> (r: Vec<Node>)
    ensures
        nodes_view(r@) == nodes_view(v@),
    decreases v,
{
    let mut out: Vec<Node> = Vec::new();
    let mut i: usize = 0;
    while i < v.len()
        invariant
            i <= v@.len(),
            nodes_view(out@) == nodes_view(v@.subrange(0, i as int)),
        decreases v@.len() - i,
    {
        proof {
            assert(decreases_to!(v => v@[i as int]));
        }
        let n = copy_node(&v[i]);
        proof {
            lemma_nodes_view_push(out@, n);
            assert(v@.subrange(0, i + 1) =~= v@.subrange(0, i as int).push(v@[i as int]));
            lemma_nodes_view_push(v@.subrange(0, i as int), v@[i as int]);
        }
        out.push(n);
        i = i + 1;
    }
    assert(v@.subrange(0, v@.len() as int) =~= v@);
    out
}

/// A deep copy of `n`.
pub fn copy_node(n: &Node) -> (r: Node)
    ensures
        r@ == n@,
    decreases n,
{
    match n {
        Node::Print(e) => Node::Print(Box::new(copy_node(e))),
        Node::Ident { ident, args } => Node::Ident { ident: copy_text(ident), args: copy_nodes(args) },
        Node::Variable { ident, param, block } => Node::Variable {
            ident: copy_text(ident),
            param: copy_names(param),
            block: Box::new(copy_node(block)),
        },
        Node::True => Node::True,
        Node::False => Node::False,
        Node::Int(i) => Node::Int(*i),
        Node::Float(t) => Node::Float(copy_text(t)),
        Node::Str(t) => Node::Str(copy_text(t)),
        Node::Block(items) => Node::Block(copy_nodes(items)),
        Node::Conditional { condition, if_branch, else_branch } => Node::Conditional {
            condition: Box::new(copy_node(condition)),
            if_branch: Box::new(copy_node(if_branch)),
            else_branch: match else_branch {
                Some(e) => Some(Box::new(copy_node(e))),
                None => None,
            },
        },
        Node::UnaryExpr { op, child } => Node::UnaryExpr { op: *op, child: Box::new(copy_node(child)) },
        Node::BinaryExpr { op, lhs, rhs } => Node::BinaryExpr {
            op: *op,
            lhs: Box::new(copy_node(lhs)),
            rhs: Box::new(copy_node(rhs)),
        },
    }
}

} // verus!
