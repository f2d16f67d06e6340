use vstd::prelude::*;
use crate::ast::{Ast, Operator};
use crate::env::{Scope, bind, declared_here, extends};
use crate::eval::{Fault, binary_result, eval_spec};
use crate::syntax::{ahead, binary, binary_op, chain, chain_rest, operand_of, prefix_op};
use crate::value::Val;

verus! {

/// Whether evaluating `n` can bind names in the scope it runs in: a
/// declaration, or one in an operand evaluated in that same scope. Blocks
/// and calls run in scopes of their own.
pub open spec fn declares(n: Ast) -> bool
    decreases n,
{
    match n {
        Ast::Variable { .. } => true,
        Ast::Print(e) => declares(*e),
        Ast::Conditional { cond, then, els } => declares(*cond) || declares(*then) || match els {
            Some(e) => declares(*e),
            None => false,
        },
        Ast::Unary { child, .. } => declares(*child),
        Ast::Binary { lhs, rhs, .. } => declares(*lhs) || declares(*rhs),
        _ => false,
    }
}

proof fn lemma_extends_refl(a: Scope)
    ensures
        extends(a, a),
{
    assert(a.bindings.subrange(0, a.bindings.len() as int) =~= a.bindings);
}

proof fn lemma_extends_trans(a: Scope, b: Scope, c: Scope)
    requires
        extends(a, b),
        extends(b, c),
    ensures
        extends(a, c),
{
    assert(a.bindings.subrange(0, c.bindings.len() as int) =~= b.bindings.subrange(
        0,
        c.bindings.len() as int,
    ));
}

/// Evaluation only ever adds bindings to the scope it runs in, whether it
/// succeeds or fails; and a node that declares nothing leaves the
/// environment as it was.
pub proof fn eval_extends_env(fuel: nat, n: Ast, sc: Scope)
    ensures
        extends(eval_spec(fuel, n, sc).scope, sc),
        !declares(n) ==> eval_spec(fuel, n, sc).scope == sc,
    decreases fuel, n,
{
    lemma_extends_refl(sc);
    match n {
        Ast::Print(e) => {
            eval_extends_env(fuel, *e, sc);
        },
        Ast::Variable { name, .. } => {
            if !declared_here(sc, name) {
                let b = bind(sc, name, n);
                assert(b.bindings.subrange(0, sc.bindings.len() as int) =~= sc.bindings);
            }
        },
        Ast::Conditional { cond, then, els } => {
            eval_extends_env(fuel, *cond, sc);
            let c = eval_spec(fuel, *cond, sc);
            eval_extends_env(fuel, *then, c.scope);
            match els {
                Some(e) => {
                    eval_extends_env(fuel, *e, c.scope);
                    lemma_extends_trans(eval_spec(fuel, *e, c.scope).scope, c.scope, sc);
                },
                None => {},
            }
            lemma_extends_trans(eval_spec(fuel, *then, c.scope).scope, c.scope, sc);
        },
        Ast::Unary { child, .. } => {
            eval_extends_env(fuel, *child, sc);
        },
        Ast::Binary { lhs, rhs, .. } => {
            eval_extends_env(fuel, *lhs, sc);
            let l = eval_spec(fuel, *lhs, sc);
            eval_extends_env(fuel, *rhs, l.scope);
            lemma_extends_trans(eval_spec(fuel, *rhs, l.scope).scope, l.scope, sc);
        },
        _ => {},
    }
}

/// Names are bound once: after a declaration of `name` has succeeded, a
/// second declaration of `name` in the same environment fails with a
/// mutation error naming it.
pub proof fn rebinding_fails(
    fuel: nat,
    sc: Scope,
    name: Seq<char>,
    first: Ast,
    second: Ast,
)
    requires
        first matches Ast::Variable { name: n1, .. } && n1 == name,
        second matches Ast::Variable { name: n2, .. } && n2 == name,
        eval_spec(fuel, first, sc).result is Ok,
    ensures
        eval_spec(fuel, second, eval_spec(fuel, first, sc).scope).result == Err::<Val, Fault>(
            Fault::Mutation(name),
        ),
{
    let after = eval_spec(fuel, first, sc).scope;
    assert(after == bind(sc, name, first));
    assert(after.bindings[after.bindings.len() - 1].name == name);
    assert(declared_here(after, name));
}

/// A block's declarations stay inside it: the environment after a block is
/// the one before it.
pub proof fn block_keeps_env(fuel: nat, items: Seq<Ast>, sc: Scope)
    ensures
        eval_spec(fuel, Ast::Block(items), sc).scope == sc,
{
}

/// Operands of one kind only: an integer and a float do not add, strings
/// join with `+` and take no `-`, and `and` wants booleans.
pub proof fn type_discipline(x: int, f: Seq<char>, a: Seq<char>, b: Seq<char>, p: bool, i: int)
    ensures
        binary_result(Operator::Plus, Val::Int(x), Val::Float(f)) == Err::<Val, Fault>(
            Fault::Type,
        ),
        binary_result(Operator::Plus, Val::Str(a), Val::Str(b)) == Ok::<Val, Fault>(
            Val::Str(a + b),
        ),
        binary_result(Operator::Minus, Val::Str(a), Val::Str(b)) == Err::<Val, Fault>(
            Fault::Type,
        ),
        binary_result(Operator::And, Val::Bool(p), Val::Int(i)) == Err::<Val, Fault>(
            Fault::Mismatched,
        ),
{
}

/// Binary levels fold to the left: `a op b op' c` at one level parses as
/// `(a op b) op' c`.
pub proof fn binary_left_assoc(
    s: Seq<char>,
    i: int,
    level: int,
    j: int,
    a: Ast,
    p: int,
    op: Operator,
    q: int,
    b: Ast,
    p2: int,
    op2: Operator,
    e: int,
    c: Ast,
)
    requires
        1 <= level <= 6,
        operand_of(s, i, level) == Ok::<(int, Ast), crate::syntax::Miss>((j, a)),
        i <= j <= s.len(),
        binary_op(s, j, level) == Some((p, op)),
        ahead(s, j, p),
        operand_of(s, p, level) == Ok::<(int, Ast), crate::syntax::Miss>((q, b)),
        ahead(s, j, q),
        binary_op(s, q, level) == Some((p2, op2)),
        ahead(s, q, p2),
        operand_of(s, p2, level) == Ok::<(int, Ast), crate::syntax::Miss>((e, c)),
        ahead(s, q, e),
        binary_op(s, e, level) is None,
    ensures
        chain(s, i, level) == Ok::<(int, Ast), crate::syntax::Miss>(
            (e, binary(op2, binary(op, a, b), c)),
        ),
{
    let ab = binary(op, a, b);
    let abc = binary(op2, ab, c);
    assert(chain_rest(s, e, level, abc) == (e, abc));
    assert(chain_rest(s, q, level, ab) == chain_rest(s, e, level, abc));
    assert(chain_rest(s, j, level, a) == chain_rest(s, q, level, ab));
    assert(chain(s, i, level) == Ok::<(int, Ast), crate::syntax::Miss>(chain_rest(s, j, level, a)));
}

/// The left fold of `ops[k]` and `rhs[k]`, from `k == i` on, onto `acc`:
/// `acc op_i rhs_i` first, then the next pair applied to that, and so on.
pub open spec fn fold_from(acc: Ast, ops: Seq<Operator>, rhs: Seq<Ast>, i: int) -> Ast
    decreases ops.len() - i,
{
    if i < 0 || i >= ops.len() || i >= rhs.len() {
        acc
    } else {
        fold_from(binary(ops[i], acc, rhs[i]), ops, rhs, i + 1)
    }
}

/// Step `k` of a binary level's tail: from `q[k]`, operator `ops[k]` ends at
/// `p[k]`, and the operand after it is `rhs[k]`, ending at `q[k + 1]`.
pub open spec fn chain_step(
    s: Seq<char>,
    level: int,
    q: Seq<int>,
    p: Seq<int>,
    ops: Seq<Operator>,
    rhs: Seq<Ast>,
    k: int,
) -> bool {
    &&& binary_op(s, q[k], level) == Some((p[k], ops[k]))
    &&& ahead(s, q[k], p[k])
    &&& operand_of(s, p[k], level) == Ok::<(int, Ast), crate::syntax::Miss>((q[k + 1], rhs[k]))
    &&& ahead(s, q[k], q[k + 1])
}

proof fn lemma_chain_rest_folds(
    s: Seq<char>,
    level: int,
    q: Seq<int>,
    p: Seq<int>,
    ops: Seq<Operator>,
    rhs: Seq<Ast>,
    i: int,
    acc: Ast,
)
    requires
        1 <= level <= 6,
        ops.len() == rhs.len() == p.len(),
        q.len() == ops.len() + 1,
        0 <= i <= ops.len(),
        forall|k: int| i <= k < ops.len() ==> #[trigger] chain_step(s, level, q, p, ops, rhs, k),
        binary_op(s, q[ops.len() as int], level) is None,
    ensures
        chain_rest(s, q[i], level, acc) == (q[ops.len() as int], fold_from(acc, ops, rhs, i)),
    decreases ops.len() - i,
{
    if i < ops.len() {
        assert(chain_step(s, level, q, p, ops, rhs, i));
        assert(chain_rest(s, q[i], level, acc) == chain_rest(
            s,
            q[i + 1],
            level,
            binary(ops[i], acc, rhs[i]),
        ));
        lemma_chain_rest_folds(s, level, q, p, ops, rhs, i + 1, binary(ops[i], acc, rhs[i]));
    }
}

/// Binary levels fold to the left, whatever the number of operands: where a
/// level's first operand `a` is followed by operators `ops` and operands
/// `rhs`, it parses as `(...((a ops[0] rhs[0]) ops[1] rhs[1]) ...)`.
pub proof fn binary_chain_left_fold(
    s: Seq<char>,
    i: int,
    level: int,
    a: Ast,
    q: Seq<int>,
    p: Seq<int>,
    ops: Seq<Operator>,
    rhs: Seq<Ast>,
)
    requires
        1 <= level <= 6,
        ops.len() == rhs.len() == p.len(),
        q.len() == ops.len() + 1,
        operand_of(s, i, level) == Ok::<(int, Ast), crate::syntax::Miss>((q[0], a)),
        i <= q[0] <= s.len(),
        forall|k: int| 0 <= k < ops.len() ==> #[trigger] chain_step(s, level, q, p, ops, rhs, k),
        binary_op(s, q[ops.len() as int], level) is None,
    ensures
        chain(s, i, level) == Ok::<(int, Ast), crate::syntax::Miss>(
            (q[ops.len() as int], fold_from(a, ops, rhs, 0)),
        ),
{
    lemma_chain_rest_folds(s, level, q, p, ops, rhs, 0, a);
    assert(chain(s, i, level) == Ok::<(int, Ast), crate::syntax::Miss>(
        chain_rest(s, q[0], level, a),
    ));
}

/// Precedence: the right operand of a looser operator is a whole expression
/// of the next tighter level, so `a + b * c` parses as `a + (b * c)`.
pub proof fn binary_precedence(
    s: Seq<char>,
    i: int,
    level: int,
    j: int,
    a: Ast,
    p: int,
    op: Operator,
    q: int,
    b: Ast,
)
    requires
        2 <= level <= 6,
        operand_of(s, i, level) == Ok::<(int, Ast), crate::syntax::Miss>((j, a)),
        i <= j <= s.len(),
        binary_op(s, j, level) == Some((p, op)),
        ahead(s, j, p),
        chain(s, p, level - 1) == Ok::<(int, Ast), crate::syntax::Miss>((q, b)),
        ahead(s, j, q),
        binary_op(s, q, level) is None,
    ensures
        chain(s, i, level) == Ok::<(int, Ast), crate::syntax::Miss>((q, binary(op, a, b))),
{
    let ab = binary(op, a, b);
    assert(operand_of(s, p, level) == chain(s, p, level - 1));
    assert(chain_rest(s, q, level, ab) == (q, ab));
    assert(chain_rest(s, j, level, a) == chain_rest(s, q, level, ab));
    assert(chain(s, i, level) == Ok::<(int, Ast), crate::syntax::Miss>(chain_rest(s, j, level, a)));
}

/// Prefix operators cancel in pairs: a run of `n + 2` of them stands for the
/// same operator as a run of `n`; one `-` negates, one `!` is logical not.
pub proof fn prefix_ops_cancel(c: char, n: nat)
    ensures
        prefix_op(c, n + 2) == prefix_op(c, n),
        prefix_op(c, 0) == Operator::Plus,
        prefix_op('-', 1) == Operator::Minus,
        prefix_op('!', 1) == Operator::Bang,
{
}

} // verus!
