//! The evaluator: a big-step semantics over the syntax tree (`eval_spec`) and
//! the executable evaluator proved to follow it.
//!
//! - Arguments are passed unevaluated: a parameter is bound to its argument's
//!   syntax and the caller's environment, and evaluated there each time the
//!   body refers to it. An argument that names a function is passed as that
//!   reference, not called.
//! - Scoping is lexical. A declaration sees what was visible where it was
//!   made, itself included (so a function can call itself), and nothing
//!   declared later or elsewhere. A function body runs in that environment
//!   with a new innermost scope holding the parameters; nothing it binds
//!   outlives the call.
//! - Integer overflow and division by zero are `ArithmeticError`s.
//! - Floats keep the text they were written with. They can be printed and
//!   negated; arithmetic and comparison on them is a `TypeError`, as the
//!   library does no floating-point computation.
//! - References and calls nest at most `MAX_DEPTH` deep; deeper is a
//!   `RecursionLimit` error.
use vstd::prelude::*;
use crate::ast::{
    Ast, Node, Operator, copy_node, nodes_view, names_view, lemma_nodes_view_index,
    lemma_nodes_view_len,
};
use crate::env::{
    Binding, Bound, Environment, Scope, bind, declared_here, lookup, copy_env,
    lemma_view_push, lemma_find_in_bounds,
};
use crate::value::{Val, Value, shown, int_text, int_to_text};

verus! {

broadcast use vstd::seq::group_seq_axioms, vstd::std_specs::vec::group_vec_axioms;

/// Why an evaluation failed.
#[derive(Debug, Clone, PartialEq, Eq)]
pub enum EvalError {
    /// Operand types that the operator does not take.
    TypeError(String),
    /// An operator where it cannot stand.
    SyntaxError(String),
    /// A name that is not bound.
    UnKnownIdent(String),
    /// A name bound a second time in the same scope.
    Mutations(String),
    /// `and` or `or` on operands that are not both booleans.
    MismatchedType(String),
    /// A call with another number of arguments than the function's
    /// parameters: expected, then given.
    FunctionParameters(usize, usize),
    /// Integer overflow, or division by zero.
    ArithmeticError(String),
    /// References and calls nested deeper than the given bound.
    RecursionLimit(usize),
}

/// The model of an evaluation error: its kind, and the name or counts it carries.
pub enum Fault {
    Type,
    Syntax,
    Unknown(Seq<char>),
    Mutation(Seq<char>),
    Mismatched,
    Arity(nat, nat),
    Arithmetic,
    Depth,
}

pub open spec fn fault_of(e: EvalError) -> Fault {
    match e {
        EvalError::TypeError(_) => Fault::Type,
        EvalError::SyntaxError(_) => Fault::Syntax,
        EvalError::UnKnownIdent(n) => Fault::Unknown(n@),
        EvalError::Mutations(n) => Fault::Mutation(n@),
        EvalError::MismatchedType(_) => Fault::Mismatched,
        EvalError::FunctionParameters(p, a) => Fault::Arity(p as nat, a as nat),
        EvalError::ArithmeticError(_) => Fault::Arithmetic,
        EvalError::RecursionLimit(_) => Fault::Depth,
    }
}

/// The text that describes an evaluation error.
pub open spec fn message_text(e: EvalError) -> Seq<char> {
    match e {
        EvalError::TypeError(m) => "TypeError: "@ + m@,
        EvalError::SyntaxError(m) => "SyntaxError: "@ + m@,
        EvalError::UnKnownIdent(n) => "UnKnownIdent: "@ + n@,
        EvalError::Mutations(n) => "Mutation is not allowed! Variable `"@ + n@
            + "` already exists."@,
        EvalError::MismatchedType(m) => "MismatchedType: "@ + m@,
        EvalError::FunctionParameters(p, a) =>
            "Function Parameter do not match with calling arguments. Expected: "@ + int_text(
                p as int,
            ) + " but got "@ + int_text(a as int),
        EvalError::ArithmeticError(m) => "ArithmeticError: "@ + m@,
        EvalError::RecursionLimit(n) => "RecursionLimit: calls nested deeper than "@ + int_text(
            n as int,
        ),
    }
}

fn joined(a: &str, b: &str) -> (r: String)
    ensures
        r@ == a@ + b@,
{
    let mut r = String::from_str(a);
    r.append(b);
    r
}

impl EvalError {
    /// A description of the error for people.
    pub fn message(&self) -> (r: String)
        ensures
            r@ == message_text(*self),
    {
        match self {
            EvalError::TypeError(m) => joined("TypeError: ", m.as_str()),
            EvalError::SyntaxError(m) => joined("SyntaxError: ", m.as_str()),
            EvalError::UnKnownIdent(n) => joined("UnKnownIdent: ", n.as_str()),
            EvalError::Mutations(n) => {
                let mut r = joined("Mutation is not allowed! Variable `", n.as_str());
                r.append("` already exists.");
                r
            },
            EvalError::MismatchedType(m) => joined("MismatchedType: ", m.as_str()),
            EvalError::FunctionParameters(p, a) => {
                let mut r = String::from_str(
                    "Function Parameter do not match with calling arguments. Expected: ",
                );
                r.append(int_to_text(*p as i128).as_str());
                r.append(" but got ");
                r.append(int_to_text(*a as i128).as_str());
                r
            },
            EvalError::ArithmeticError(m) => joined("ArithmeticError: ", m.as_str()),
            EvalError::RecursionLimit(n) => joined(
                "RecursionLimit: calls nested deeper than ",
                int_to_text(*n as i128).as_str(),
            ),
        }
    }
}

/// What an evaluation comes to: its value or failure, the environment after
/// it, and the lines it printed.
pub struct Run {
    pub result: Result<Val, Fault>,
    pub scope: Scope,
    pub out: Seq<Seq<char>>,
}

pub open spec fn texts(v: Seq<String>) -> Seq<Seq<char>> {
    v.map_values(|s: String| s@)
}

pub open spec fn result_view(r: Result<Value, EvalError>) -> Result<Val, Fault> {
    match r {
        Ok(v) => Ok(v@),
        Err(e) => Err(fault_of(e)),
    }
}

/// A float's text with its sign flipped.
pub open spec fn negated(t: Seq<char>) -> Seq<char> {
    if t.len() > 0 && t[0] == '-' {
        t.drop_first()
    } else {
        seq!['-'] + t
    }
}

/// An integer result, if it fits in `i128`.
pub open spec fn fits(v: int) -> Result<Val, Fault> {
    if i128::MIN <= v <= i128::MAX {
        Ok(Val::Int(v))
    } else {
        Err(Fault::Arithmetic)
    }
}

/// Integer division rounding toward zero.
pub open spec fn trunc_div(x: int, d: int) -> int {
    if x == 0 {
        0
    } else if x > 0 && d > 0 {
        x / d
    } else if x < 0 && d < 0 {
        (x * -1) / (d * -1)
    } else if x < 0 {
        ((x * -1) / d) * -1
    } else {
        (x / (d * -1)) * -1
    }
}

/// A unary operator applied to a value.
pub open spec fn unary_result(op: Operator, v: Val) -> Result<Val, Fault> {
    match op {
        Operator::Minus => match v {
            Val::Int(i) => fits(-i),
            Val::Float(t) => Ok(Val::Float(negated(t))),
            _ => Err(Fault::Type),
        },
        Operator::Bang => match v {
            Val::Bool(b) => Ok(Val::Bool(!b)),
            _ => Err(Fault::Syntax),
        },
        _ => Ok(v),
    }
}

/// A binary operator applied to two integers.
pub open spec fn int_result(op: Operator, x: int, y: int) -> Result<Val, Fault> {
    match op {
        Operator::Plus => fits(x + y),
        Operator::Minus => fits(x - y),
        Operator::Multiply => fits(x * y),
        Operator::Divide => if y == 0 {
            Err(Fault::Arithmetic)
        } else {
            fits(trunc_div(x, y))
        },
        Operator::Equality => Ok(Val::Bool(x == y)),
        Operator::NotEqual => Ok(Val::Bool(x != y)),
        Operator::GreaterThan => Ok(Val::Bool(x > y)),
        Operator::GreaterEqual => Ok(Val::Bool(x >= y)),
        Operator::LessThan => Ok(Val::Bool(x < y)),
        Operator::LessEqual => Ok(Val::Bool(x <= y)),
        Operator::Or => Err(Fault::Mismatched),
        Operator::And => Err(Fault::Mismatched),
        Operator::Bang => Err(Fault::Syntax),
    }
}

/// A binary operator applied to two values: operands of one kind, `+` joins
/// strings, `==` and `!=` compare like kinds, booleans order `false < true`,
/// and `and`/`or` take booleans only. Floats are carried but not computed with.
pub open spec fn binary_result(op: Operator, a: Val, b: Val) -> Result<Val, Fault> {
    match (a, b) {
        (Val::Int(x), Val::Int(y)) => int_result(op, x, y),
        (Val::Str(x), Val::Str(y)) => match op {
            Operator::Plus => Ok(Val::Str(x + y)),
            Operator::Equality => Ok(Val::Bool(x == y)),
            Operator::NotEqual => Ok(Val::Bool(x != y)),
            Operator::Or => Err(Fault::Mismatched),
            Operator::And => Err(Fault::Mismatched),
            _ => Err(Fault::Type),
        },
        (Val::Bool(x), Val::Bool(y)) => match op {
            Operator::Equality => Ok(Val::Bool(x == y)),
            Operator::NotEqual => Ok(Val::Bool(x != y)),
            Operator::GreaterThan => Ok(Val::Bool(x && !y)),
            Operator::LessThan => Ok(Val::Bool(!x && y)),
            Operator::GreaterEqual => Ok(Val::Bool(x || !y)),
            Operator::LessEqual => Ok(Val::Bool(!x || y)),
            Operator::Or => Ok(Val::Bool(x || y)),
            Operator::And => Ok(Val::Bool(x && y)),
            _ => Err(Fault::Syntax),
        },
        _ => if op == Operator::Or || op == Operator::And {
            Err(Fault::Mismatched)
        } else {
            Err(Fault::Type)
        },
    }
}

/// The environment a binding's declaration is evaluated in: the one it
/// was declared in, for a declaration; the caller's, for an argument.
pub open spec fn home(sc: Scope, b: Bound) -> Scope {
    if b.home.0 <= sc.bindings.len() {
        Scope { bindings: sc.bindings, depth: b.home.1, top: b.home.0 }
    } else {
        sc
    }
}

/// The parameters of a call bound to its unevaluated arguments, pushed on
/// the stack of `caller` in a new innermost scope over `base`; each argument
/// is to be evaluated in `caller`.
pub open spec fn formals(
    params: Seq<Seq<char>>,
    args: Seq<Ast>,
    base: Scope,
    caller: Scope,
) -> Seq<Bound> {
    Seq::new(
        params.len(),
        |i: int|
            Bound {
                name: params[i],
                decl: args[i],
                frame: base.depth + 1,
                prev: if i == 0 {
                    base.top
                } else {
                    (caller.bindings.len() + i) as nat
                },
                home: (caller.top, caller.depth),
            },
    )
}

/// The environment a function body runs in: its parameters over `base`,
/// the environment the function was declared in.
pub open spec fn call_scope(
    base: Scope,
    params: Seq<Seq<char>>,
    args: Seq<Ast>,
    caller: Scope,
) -> Scope {
    Scope {
        bindings: caller.bindings + formals(params, args, base, caller),
        depth: base.depth + 1,
        top: (caller.bindings.len() + params.len()) as nat,
    }
}

pub open spec fn emit(result: Result<Val, Fault>, scope: Scope, out: Seq<Seq<char>>) -> Run {
    Run { result, scope, out }
}

/// Evaluation of `n` in `sc`, with references and calls nested at most `fuel` deep.
pub open spec fn eval_spec(fuel: nat, n: Ast, sc: Scope) -> Run
    decreases fuel, n,
{
    match n {
        Ast::Print(e) => {
            let r = eval_spec(fuel, *e, sc);
            match r.result {
                Ok(v) => emit(Ok(Val::Unit), r.scope, r.out.push(shown(v))),
                Err(_) => r,
            }
        },
        Ast::Bool(b) => emit(Ok(Val::Bool(b)), sc, Seq::empty()),
        Ast::Int(i) => emit(Ok(Val::Int(i)), sc, Seq::empty()),
        Ast::Float(t) => emit(Ok(Val::Float(t)), sc, Seq::empty()),
        Ast::Str(t) => emit(Ok(Val::Str(t)), sc, Seq::empty()),
        Ast::Variable { name, .. } => if declared_here(sc, name) {
            emit(Err(Fault::Mutation(name)), sc, Seq::empty())
        } else if sc.bindings.len() >= usize::MAX {
            emit(Err(Fault::Depth), sc, Seq::empty())
        } else {
            emit(Ok(Val::Unit), bind(sc, name, n), Seq::empty())
        },
        Ast::Ident { name, args } => match lookup(sc, name) {
            None => emit(Err(Fault::Unknown(name)), sc, Seq::empty()),
            Some(k) => if fuel == 0 || !(0 <= k < sc.bindings.len()) {
                emit(Err(Fault::Depth), sc, Seq::empty())
            } else {
                let b = sc.bindings[k];
                let base = home(sc, b);
                match b.decl {
                    Ast::Variable { params, body, .. } => if params.len() == 0 {
                        let r = eval_spec((fuel - 1) as nat, *body, base);
                        emit(r.result, sc, r.out)
                    } else if args.len() != params.len() {
                        emit(Err(Fault::Arity(params.len(), args.len())), sc, Seq::empty())
                    } else if base.depth >= usize::MAX || sc.bindings.len() + params.len()
                        >= usize::MAX {
                        emit(Err(Fault::Depth), sc, Seq::empty())
                    } else {
                        let r = eval_spec(
                            (fuel - 1) as nat,
                            *body,
                            call_scope(base, params, args, sc),
                        );
                        emit(r.result, sc, r.out)
                    },
                    other => {
                        let r = eval_spec((fuel - 1) as nat, other, base);
                        emit(r.result, sc, r.out)
                    },
                }
            },
        },
        Ast::Block(items) => if sc.depth >= usize::MAX {
            emit(Err(Fault::Depth), sc, Seq::empty())
        } else {
            let r = items_spec(
                fuel,
                items,
                Scope { bindings: sc.bindings, depth: sc.depth + 1, top: sc.top },
                Val::Unit,
            );
            emit(r.result, sc, r.out)
        },
        Ast::Conditional { cond, then, els } => {
            let c = eval_spec(fuel, *cond, sc);
            match c.result {
                Ok(Val::Bool(b)) => if b {
                    let t = eval_spec(fuel, *then, c.scope);
                    emit(t.result, t.scope, c.out + t.out)
                } else {
                    match els {
                        Some(e) => {
                            let t = eval_spec(fuel, *e, c.scope);
                            emit(t.result, t.scope, c.out + t.out)
                        },
                        None => emit(Ok(Val::Unit), c.scope, c.out),
                    }
                },
                Ok(_) => emit(Err(Fault::Type), c.scope, c.out),
                Err(_) => c,
            }
        },
        Ast::Unary { op, child } => {
            let r = eval_spec(fuel, *child, sc);
            match r.result {
                Ok(v) => emit(unary_result(op, v), r.scope, r.out),
                Err(_) => r,
            }
        },
        Ast::Binary { op, lhs, rhs } => {
            let l = eval_spec(fuel, *lhs, sc);
            match l.result {
                Err(_) => l,
                Ok(a) => {
                    let r = eval_spec(fuel, *rhs, l.scope);
                    match r.result {
                        Err(f) => emit(Err(f), r.scope, l.out + r.out),
                        Ok(b) => emit(binary_result(op, a, b), r.scope, l.out + r.out),
                    }
                },
            }
        },
    }
}

/// Evaluation of a block's items in order, threading the environment; the
/// value is the last item's, or `last` when there are none.
pub open spec fn items_spec(fuel: nat, items: Seq<Ast>, sc: Scope, last: Val) -> Run
    decreases fuel, items,
{
    if items.len() == 0 {
        emit(Ok(last), sc, Seq::empty())
    } else {
        let r = eval_spec(fuel, items[0], sc);
        match r.result {
            Err(_) => r,
            Ok(v) => {
                let rest = items_spec(fuel, items.drop_first(), r.scope, v);
                emit(rest.result, rest.scope, r.out + rest.out)
            },
        }
    }
}

proof fn lemma_texts_push(v: Seq<String>, s: String)
    ensures
        texts(v.push(s)) == texts(v).push(s@),
{
    assert(texts(v.push(s)) =~= texts(v).push(s@));
}

fn text(s: &str) -> (r: String)
    ensures
        r@ == s@,
{
    String::from_str(s)
}

fn negated_text(t: &String) -> (r: String)
    ensures
        r@ == negated(t@),
{
    let n = t.as_str().unicode_len();
    if n > 0 && t.as_str().get_char(0) == '-' {
        let r = String::from_str(t.as_str().substring_char(1, n));
        assert(r@ =~= t@.drop_first());
        r
    } else {
        let r = joined("-", t.as_str());
        proof {
            reveal_strlit("-");
            assert(r@ =~= seq!['-'] + t@);
        }
        r
    }
}

fn unary_value(op: Operator, v: Value) -> (r: Result<Value, EvalError>)
    ensures
        result_view(r) == unary_result(op, v@),
{
    match op {
        Operator::Minus => match v {
            Value::Int(i) => if i == i128::MIN {
                Err(EvalError::ArithmeticError(text("integer overflow")))
            } else {
                Ok(Value::Int(-i))
            },
            Value::Float(t) => Ok(Value::Float(negated_text(&t))),
            other => Err(EvalError::TypeError(joined("cannot negate a value of type ", other.value_type().as_str()))),
        },
        Operator::Bang => match v {
            Value::Bool(b) => Ok(Value::Bool(!b)),
            other => Err(
                EvalError::SyntaxError(
                    joined("cannot apply unary operator `!` to type ", other.value_type().as_str()),
                ),
            ),
        },
        _ => Ok(v),
    }
}

fn overflow() -> (r: EvalError)
    ensures
        fault_of(r) == Fault::Arithmetic,
{
    EvalError::ArithmeticError(text("integer overflow"))
}

fn not_bool(op: Operator) -> (r: EvalError)
    ensures
        fault_of(r) == Fault::Mismatched,
{
    EvalError::MismatchedType(joined(op.symbol(), " expects `Bool` operands"))
}

fn int_value(op: Operator, x: i128, y: i128) -> (r: Result<Value, EvalError>)
    ensures
        result_view(r) == int_result(op, x as int, y as int),
{
    match op {
        Operator::Plus => match x.checked_add(y) {
            Some(v) => Ok(Value::Int(v)),
            None => Err(overflow()),
        },
        Operator::Minus => match x.checked_sub(y) {
            Some(v) => Ok(Value::Int(v)),
            None => Err(overflow()),
        },
        Operator::Multiply => match x.checked_mul(y) {
            Some(v) => Ok(Value::Int(v)),
            None => Err(overflow()),
        },
        Operator::Divide => if y == 0 {
            Err(EvalError::ArithmeticError(text("division by zero")))
        } else {
            match x.checked_div(y) {
                Some(v) => Ok(Value::Int(v)),
                None => Err(overflow()),
            }
        },
        Operator::Equality => Ok(Value::Bool(x == y)),
        Operator::NotEqual => Ok(Value::Bool(x != y)),
        Operator::GreaterThan => Ok(Value::Bool(x > y)),
        Operator::GreaterEqual => Ok(Value::Bool(x >= y)),
        Operator::LessThan => Ok(Value::Bool(x < y)),
        Operator::LessEqual => Ok(Value::Bool(x <= y)),
        Operator::Or => Err(not_bool(op)),
        Operator::And => Err(not_bool(op)),
        Operator::Bang => Err(EvalError::SyntaxError(text("`!` is not a binary operator"))),
    }
}

fn type_mismatch(op: Operator, a: &Value, b: &Value) -> (r: EvalError)
    ensures
        fault_of(r) == Fault::Type,
{
    let mut m = joined("Can not ", op.symbol());
    m.append(" a ");
    m.append(a.value_type().as_str());
    m.append(" with a ");
    m.append(b.value_type().as_str());
    m.append(".");
    EvalError::TypeError(m)
}

fn binary_value(op: Operator, a: Value, b: Value) -> (r: Result<Value, EvalError>)
    ensures
        result_view(r) == binary_result(op, a@, b@),
{
    match (a, b) {
        (Value::Int(x), Value::Int(y)) => int_value(op, x, y),
        (Value::String(x), Value::String(y)) => match op {
            Operator::Plus => {
                let mut s = x;
                s.append(y.as_str());
                Ok(Value::String(s))
            },
            Operator::Equality => Ok(Value::Bool(x == y)),
            Operator::NotEqual => Ok(Value::Bool(!(x == y))),
            Operator::Or => Err(not_bool(op)),
            Operator::And => Err(not_bool(op)),
            _ => Err(type_mismatch(op, &Value::String(x), &Value::String(y))),
        },
        (Value::Bool(x), Value::Bool(y)) => match op {
            Operator::Equality => Ok(Value::Bool(x == y)),
            Operator::NotEqual => Ok(Value::Bool(x != y)),
            Operator::GreaterThan => Ok(Value::Bool(x && !y)),
            Operator::LessThan => Ok(Value::Bool(!x && y)),
            Operator::GreaterEqual => Ok(Value::Bool(x || !y)),
            Operator::LessEqual => Ok(Value::Bool(!x || y)),
            Operator::Or => Ok(Value::Bool(x || y)),
            Operator::And => Ok(Value::Bool(x && y)),
            _ => Err(
                EvalError::SyntaxError(joined(op.symbol(), " cannot be used on type Bool")),
            ),
        },
        (a, b) => if op == Operator::Or || op == Operator::And {
            Err(not_bool(op))
        } else {
            Err(type_mismatch(op, &a, &b))
        },
    }
}

/// Binds the parameters of a call to its arguments in a new innermost scope
/// over `callee`, which holds the caller's stack of bindings; the arguments
/// are to be evaluated in the caller's environment `caller`.
fn enter_call(
    callee: &mut Environment,
    params: &Vec<String>,
    args: &Vec<Node>,
    caller_top: usize,
    caller_depth: usize,
)
    requires
        old(callee).depth < usize::MAX,
        old(callee).bindings@.len() + params@.len() < usize::MAX,
        params@.len() == args@.len(),
    ensures
        final(callee)@ == call_scope(
            old(callee)@,
            names_view(params@),
            nodes_view(args@),
            Scope {
                bindings: old(callee)@.bindings,
                depth: caller_depth as nat,
                top: caller_top as nat,
            },
        ),
{
    let ghost b0 = callee@;
    let ghost caller = Scope {
        bindings: b0.bindings,
        depth: caller_depth as nat,
        top: caller_top as nat,
    };
    let ghost all = formals(names_view(params@), nodes_view(args@), b0, caller);
    let frame = callee.depth + 1;
    let len0 = callee.bindings.len();
    let top0 = callee.top;
    proof {
        lemma_nodes_view_len(args@);
    }
    let mut i: usize = 0;
    while i < params.len()
        invariant
            i <= params@.len() == args@.len(),
            nodes_view(args@).len() == args@.len(),
            len0 == b0.bindings.len(),
            len0 + params@.len() < usize::MAX,
            frame == b0.depth + 1,
            top0 == b0.top,
            caller == (Scope {
                bindings: b0.bindings,
                depth: caller_depth as nat,
                top: caller_top as nat,
            }),
            all == formals(names_view(params@), nodes_view(args@), b0, caller),
            callee@.bindings == b0.bindings + all.subrange(0, i as int),
        decreases params@.len() - i,
    {
        proof {
            lemma_nodes_view_index(args@, i as int);
        }
        let prev = if i == 0 {
            top0
        } else {
            len0 + i
        };
        let b = Binding {
            name: params[i].clone(),
            decl: copy_node(&args[i]),
            frame,
            prev,
            home: (caller_top, caller_depth),
        };
        proof {
            lemma_view_push(callee.bindings@, b);
            assert(b@ == all[i as int]);
            assert(all.subrange(0, i + 1) =~= all.subrange(0, i as int).push(all[i as int]));
        }
        callee.bindings.push(b);
        i = i + 1;
    }
    callee.depth = frame;
    callee.top = len0 + params.len();
    assert(all.subrange(0, all.len() as int) =~= all);
}

/// Evaluates `node` in `env`, with references and calls nested at most `fuel`
/// deep; what `print` prints is appended to `out`, one line per value.
pub fn eval_in(node: &Node, env: &mut Environment, out: &mut Vec<String>, fuel: usize) -> (r:
    Result<Value, EvalError>)
    ensures
        ({
            let run = eval_spec(fuel as nat, node@, old(env)@);
            &&& result_view(r) == run.result
            &&& final(env)@ == run.scope
            &&& texts(final(out)@) == texts(old(out)@) + run.out
        }),
    decreases fuel, node,
{
    let ghost out0 = texts(out@);
    match node {
        Node::Print(e) => {
            let r = eval_in(e, env, out, fuel);
            match r {
                Ok(v) => {
                    let line = v.to_text();
                    proof {
                        lemma_texts_push(out@, line);
                    }
                    out.push(line);
                    proof {
                        let run = eval_spec(fuel as nat, (**e)@, old(env)@);
                        assert(texts(out@) =~= out0 + run.out.push(shown(v@)));
                    }
                    Ok(Value::NONE)
                },
                Err(x) => Err(x),
            }
        },
        Node::True => {
            assert(texts(out@) =~= out0 + Seq::<Seq<char>>::empty());
            Ok(Value::Bool(true))
        },
        Node::False => {
            assert(texts(out@) =~= out0 + Seq::<Seq<char>>::empty());
            Ok(Value::Bool(false))
        },
        Node::Int(i) => {
            assert(texts(out@) =~= out0 + Seq::<Seq<char>>::empty());
            Ok(Value::Int(*i))
        },
        Node::Float(t) => {
            assert(texts(out@) =~= out0 + Seq::<Seq<char>>::empty());
            Ok(Value::Float(t.clone()))
        },
        Node::Str(t) => {
            assert(texts(out@) =~= out0 + Seq::<Seq<char>>::empty());
            Ok(Value::String(t.clone()))
        },
        Node::Variable { ident, .. } => {
            assert(texts(out@) =~= out0 + Seq::<Seq<char>>::empty());
            if env.declared_here(ident.as_str()) {
                Err(EvalError::Mutations(ident.clone()))
            } else if env.bindings.len() == usize::MAX {
                Err(EvalError::RecursionLimit(MAX_DEPTH))
            } else {
                env.push_binding(ident.clone(), copy_node(node));
                Ok(Value::NONE)
            }
        },
        Node::Ident { ident, args } => eval_ref(ident, args, env, out, fuel),
        Node::Block(items) => {
            if env.depth == usize::MAX {
                assert(texts(out@) =~= out0 + Seq::<Seq<char>>::empty());
                Err(EvalError::RecursionLimit(MAX_DEPTH))
            } else {
                let mut inner = copy_env(env);
                inner.depth = env.depth + 1;
                eval_items(items, &mut inner, out, fuel)
            }
        },
        Node::Conditional { condition, if_branch, else_branch } => {
            let c = eval_in(condition, env, out, fuel);
            let ghost out1 = texts(out@);
            match c {
                Ok(Value::Bool(b)) => if b {
                    let r = eval_in(if_branch, env, out, fuel);
                    assert(texts(out@) =~= out0 + (out1.subrange(out0.len() as int, out1.len() as int)
                        + texts(out@).subrange(out1.len() as int, texts(out@).len() as int)));
                    r
                } else {
                    match else_branch {
                        Some(e) => {
                            let r = eval_in(e, env, out, fuel);
                            assert(texts(out@) =~= out0 + (out1.subrange(
                                out0.len() as int,
                                out1.len() as int,
                            ) + texts(out@).subrange(out1.len() as int, texts(out@).len() as int)));
                            r
                        },
                        None => Ok(Value::NONE),
                    }
                },
                Ok(v) => Err(
                    EvalError::TypeError(joined("Expected a Bool here, not a ", v.value_type().as_str())),
                ),
                Err(x) => Err(x),
            }
        },
        Node::UnaryExpr { op, child } => {
            let r = eval_in(child, env, out, fuel);
            match r {
                Ok(v) => unary_value(*op, v),
                Err(x) => Err(x),
            }
        },
        Node::BinaryExpr { op, lhs, rhs } => {
            let l = eval_in(lhs, env, out, fuel);
            let ghost out1 = texts(out@);
            match l {
                Err(x) => Err(x),
                Ok(a) => {
                    let r = eval_in(rhs, env, out, fuel);
                    assert(texts(out@) =~= out0 + (out1.subrange(out0.len() as int, out1.len() as int)
                        + texts(out@).subrange(out1.len() as int, texts(out@).len() as int)));
                    match r {
                        Err(x) => Err(x),
                        Ok(b) => binary_value(*op, a, b),
                    }
                },
            }
        },
    }
}

/// Evaluates a reference to `ident`, a call when `args` is not empty.
fn eval_ref(
    ident: &String,
    args: &Vec<Node>,
    env: &mut Environment,
    out: &mut Vec<String>,
    fuel: usize,
) -> (r: Result<Value, EvalError>)
    ensures
        ({
            let run = eval_spec(
                fuel as nat,
                Ast::Ident { name: ident@, args: nodes_view(args@) },
                old(env)@,
            );
            &&& result_view(r) == run.result
            &&& final(env)@ == run.scope
            &&& texts(final(out)@) == texts(old(out)@) + run.out
        }),
    decreases fuel, args,
{
    let ghost out0 = texts(out@);
    proof {
        lemma_find_in_bounds(env@.bindings, ident@, env@.top as int);
    }
    match env.find(ident.as_str()) {
        None => {
            assert(texts(out@) =~= out0 + Seq::<Seq<char>>::empty());
            Err(EvalError::UnKnownIdent(ident.clone()))
        },
        Some(k) => {
            if fuel == 0 {
                assert(texts(out@) =~= out0 + Seq::<Seq<char>>::empty());
                return Err(EvalError::RecursionLimit(MAX_DEPTH));
            }
            let decl = copy_node(&env.bindings[k].decl);
            let mut base = home_env(env, &env.bindings[k]);
            assert(decl@ == env@.bindings[k as int].decl);
            match decl {
                Node::Variable { ident: _, param, block } => {
                    if param.len() == 0 {
                        eval_in(&block, &mut base, out, fuel - 1)
                    } else if args.len() != param.len() {
                        proof {
                            lemma_nodes_view_len(args@);
                        }
                        assert(texts(out@) =~= out0 + Seq::<Seq<char>>::empty());
                        Err(EvalError::FunctionParameters(param.len(), args.len()))
                    } else if base.depth == usize::MAX || param.len() >= usize::MAX
                        - env.bindings.len() {
                        proof {
                            lemma_nodes_view_len(args@);
                        }
                        assert(texts(out@) =~= out0 + Seq::<Seq<char>>::empty());
                        Err(EvalError::RecursionLimit(MAX_DEPTH))
                    } else {
                        proof {
                            lemma_nodes_view_len(args@);
                        }
                        enter_call(&mut base, &param, args, env.top, env.depth);
                        eval_in(&block, &mut base, out, fuel - 1)
                    }
                },
                other => eval_in(&other, &mut base, out, fuel - 1),
            }
        },
    }
}

/// A copy of the environment that the declaration of `b` is evaluated in.
fn home_env(env: &Environment, b: &Binding) -> (r: Environment)
    ensures
        r@ == home(env@, b@),
{
    let mut r = copy_env(env);
    if b.home.0 <= env.bindings.len() {
        r.top = b.home.0;
        r.depth = b.home.1;
    }
    r
}

/// Evaluates a block's items in order in `env`; the value is the last item's.
fn eval_items(items: &Vec<Node>, env: &mut Environment, out: &mut Vec<String>, fuel: usize) -> (r:
    Result<Value, EvalError>)
    ensures
        ({
            let run = items_spec(fuel as nat, nodes_view(items@), old(env)@, Val::Unit);
            &&& result_view(r) == run.result
            &&& final(env)@ == run.scope
            &&& texts(final(out)@) == texts(old(out)@) + run.out
        }),
    decreases fuel, items,
{
    let ghost all = nodes_view(items@);
    let ghost total = items_spec(fuel as nat, all, env@, Val::Unit);
    let ghost out0 = texts(out@);
    proof {
        lemma_nodes_view_len(items@);
        assert(all.subrange(0, all.len() as int) =~= all);
    }
    let mut last = Value::NONE;
    let mut i: usize = 0;
    while i < items.len()
        invariant
            i <= items@.len() == all.len(),
            all == nodes_view(items@),
            total == items_spec(fuel as nat, nodes_view(items@), old(env)@, Val::Unit),
            out0 == texts(old(out)@),
            out0.len() <= texts(out@).len(),
            texts(out@).subrange(0, out0.len() as int) == out0,
            ({
                let rest = items_spec(fuel as nat, all.subrange(i as int, all.len() as int), env@, last@);
                &&& total.result == rest.result
                &&& total.scope == rest.scope
                &&& total.out == texts(out@).subrange(out0.len() as int, texts(out@).len() as int) + rest.out
            }),
        decreases items@.len() - i,
    {
        let ghost before = texts(out@);
        let ghost sub = all.subrange(i as int, all.len() as int);
        proof {
            lemma_nodes_view_index(items@, i as int);
            assert(sub[0] == items@[i as int]@);
            assert(sub.drop_first() =~= all.subrange(i + 1, all.len() as int));
            assert(decreases_to!(items => items@[i as int]));
        }
        let ghost env_before = env@;
        let r = eval_in(&items[i], env, out, fuel);
        match r {
            Ok(v) => {
                proof {
                    let step = eval_spec(fuel as nat, items@[i as int]@, env_before);
                    assert(texts(out@).subrange(0, out0.len() as int) =~= out0);
                    assert(texts(out@).subrange(out0.len() as int, texts(out@).len() as int) =~= before.subrange(
                        out0.len() as int,
                        before.len() as int,
                    ) + texts(out@).subrange(before.len() as int, texts(out@).len() as int));
                }
                last = v;
                i = i + 1;
                proof {
                    let rest = items_spec(fuel as nat, all.subrange(i as int, all.len() as int), env@, last@);
                    assert(total.out =~= texts(out@).subrange(out0.len() as int, texts(out@).len() as int) + rest.out);
                }
            },
            Err(x) => {
                proof {
                    let step = eval_spec(fuel as nat, items@[i as int]@, env_before);
                    assert(items_spec(fuel as nat, sub, env_before, last@) == step);
                    assert(result_view(r) == step.result);
                    assert(total.result == step.result);
                    assert(texts(out@).subrange(before.len() as int, texts(out@).len() as int) =~= step.out);
                    assert(texts(out@).subrange(out0.len() as int, texts(out@).len() as int) =~= before.subrange(
                        out0.len() as int,
                        before.len() as int,
                    ) + texts(out@).subrange(before.len() as int, texts(out@).len() as int));
                    assert(texts(out@) =~= out0 + texts(out@).subrange(out0.len() as int, texts(out@).len() as int));
                }
                return Err(x);
            },
        }
    }
    proof {
        assert(all.subrange(i as int, all.len() as int) =~= Seq::<Ast>::empty());
        assert(texts(out@) =~= out0 + texts(out@).subrange(out0.len() as int, texts(out@).len() as int));
    }
    Ok(last)
}

/// How deeply references and calls may nest in one evaluation.
pub const MAX_DEPTH: usize = 1000;

/// Evaluates one top-level declaration or statement in `env`: the value, or
/// the failure, with the environment to go on with. What `print` prints is
/// appended to `out`, one line per value.
pub fn eval(node: Node, env: Environment, out: &mut Vec<String>) -> (r: Result<
    (Value, Environment),
    (EvalError, Environment),
>)
    ensures
        ({
            let run = eval_spec(MAX_DEPTH as nat, node@, env@);
            &&& match r {
                Ok((v, e)) => run.result == Ok::<Val, Fault>(v@) && e@ == run.scope,
                Err((x, e)) => run.result == Err::<Val, Fault>(fault_of(x)) && e@ == run.scope,
            }
            &&& texts(final(out)@) == texts(old(out)@) + run.out
        }),
{
    let mut env = env;
    match eval_in(&node, &mut env, out, MAX_DEPTH) {
        Ok(v) => Ok((v, env)),
        Err(x) => Err((x, env)),
    }
}

} // verus!
