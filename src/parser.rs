use vstd::prelude::*;
use crate::ast::{Ast, KeyWord, Node, Operator, nodes_view, names_view, lemma_nodes_view_push, lemma_names_view_push};
use crate::chars::{
    is_alphabetic, is_ident_char, is_whitespace, digit, digit_value, decimal_value,
    lemma_decimal_value_nonneg,
};
use crate::error::{Error, ErrorKind};
use crate::position::{Position, locate, line_of, column_of};
use crate::syntax;
use crate::syntax::{Kind, Miss, Parsed, ahead};
use crate::text::{chars_of, same_text, text_of};

verus! {

/// A failed parse: the offset where it failed and what was expected there.
pub struct Failure {
    pub at: usize,
    pub kind: ErrorKind,
}

pub open spec fn kind_view(k: ErrorKind) -> Kind {
    match k {
        ErrorKind::Tag(t) => Kind::Tag(t@),
        ErrorKind::Ident => Kind::Ident,
        ErrorKind::Float => Kind::Float,
        ErrorKind::Int => Kind::Int,
        ErrorKind::AnyChar => Kind::AnyChar,
        ErrorKind::Comparison => Kind::Comparison,
    }
}

pub open spec fn miss_of(f: Failure) -> Miss {
    Miss { at: f.at as int, kind: kind_view(f.kind) }
}

pub open spec fn within<T>(r: Result<(usize, T), Failure>, n: int) -> bool {
    match r {
        Ok((j, _)) => j <= n,
        Err(f) => f.at <= n,
    }
}

pub open spec fn node_res(r: Result<(usize, Node), Failure>) -> Parsed<Ast> {
    match r {
        Ok((j, n)) => Ok((j as int, n@)),
        Err(f) => Err(miss_of(f)),
    }
}

pub open spec fn name_res(r: Result<(usize, String), Failure>) -> Parsed<Seq<char>> {
    match r {
        Ok((j, n)) => Ok((j as int, n@)),
        Err(f) => Err(miss_of(f)),
    }
}

pub open spec fn fun_res(r: Result<(usize, (Vec<String>, Node)), Failure>) -> Parsed<
    (Seq<Seq<char>>, Ast),
> {
    match r {
        Ok((j, (ps, b))) => Ok((j as int, (names_view(ps@), b@))),
        Err(f) => Err(miss_of(f)),
    }
}

pub open spec fn pos_res(r: Result<usize, Failure>) -> Result<int, Miss> {
    match r {
        Ok(j) => Ok(j as int),
        Err(f) => Err(miss_of(f)),
    }
}

pub open spec fn pos_within(r: Result<usize, Failure>, n: int) -> bool {
    match r {
        Ok(j) => j <= n,
        Err(f) => f.at <= n,
    }
}

fn tag_kind(lit: &str) -> (r: ErrorKind)
    ensures
        kind_view(r) == Kind::Tag(lit@),
{
    ErrorKind::Tag(String::from_str(lit))
}

fn skip_ws(s: &Vec<char>, i: usize) -> (r: usize)
    requires
        i <= s@.len(),
    ensures
        r == syntax::skip_ws(s@, i as int),
        i <= r <= s@.len(),
{
    let mut j = i;
    while j < s.len() && is_whitespace(s[j])
        invariant
            i <= j <= s@.len(),
            syntax::skip_ws(s@, i as int) == syntax::skip_ws(s@, j as int),
        decreases s@.len() - j,
    {
        j = j + 1;
    }
    j
}

fn lit_at(s: &Vec<char>, i: usize, lit: &str) -> (r: bool)
    requires
        i <= s@.len(),
    ensures
        r == syntax::lit_at(s@, i as int, lit@),
{
    let n = lit.unicode_len();
    let len = s.len();
    if n > len - i {
        return false;
    }
    let mut k: usize = 0;
    while k < n
        invariant
            len == s@.len(),
            n == lit@.len(),
            i + n <= s@.len(),
            k <= n,
            forall|m: int| 0 <= m < k ==> s@[i + m] == lit@[m],
        decreases n - k,
    {
        if s[i + k] != lit.get_char(k) {
            assert(s@.subrange(i as int, i + n)[k as int] != lit@[k as int]);
            return false;
        }
        k = k + 1;
    }
    assert(s@.subrange(i as int, i + n) =~= lit@);
    true
}

fn token(s: &Vec<char>, i: usize, lit: &str) -> (r: Result<usize, Failure>)
    requires
        i <= s@.len(),
    ensures
        pos_res(r) == syntax::token(s@, i as int, lit@),
        pos_within(r, s@.len() as int),
{
    let a = skip_ws(s, i);
    let len = s.len();
    if lit_at(s, a, lit) {
        Ok(skip_ws(s, a + lit.unicode_len()))
    } else {
        Err(Failure { at: a, kind: tag_kind(lit) })
    }
}

fn word(s: &Vec<char>, i: usize, lit: &str) -> (r: Result<usize, Failure>)
    requires
        i <= s@.len(),
    ensures
        pos_res(r) == syntax::word(s@, i as int, lit@),
        pos_within(r, s@.len() as int),
{
    let a = skip_ws(s, i);
    let len = s.len();
    if lit_at(s, a, lit) {
        let e = a + lit.unicode_len();
        if e < s.len() && is_ident_char(s[e]) {
            Err(Failure { at: a, kind: tag_kind(lit) })
        } else {
            Ok(skip_ws(s, e))
        }
    } else {
        Err(Failure { at: a, kind: tag_kind(lit) })
    }
}

fn ident_end(s: &Vec<char>, i: usize) -> (r: usize)
    requires
        i <= s@.len(),
    ensures
        r == syntax::ident_end(s@, i as int),
        i <= r <= s@.len(),
{
    let mut j = i;
    while j < s.len() && is_ident_char(s[j])
        invariant
            i <= j <= s@.len(),
            syntax::ident_end(s@, i as int) == syntax::ident_end(s@, j as int),
        decreases s@.len() - j,
    {
        j = j + 1;
    }
    j
}

fn name(s: &Vec<char>, i: usize) -> (r: Result<(usize, String), Failure>)
    requires
        i <= s@.len(),
    ensures
        name_res(r) == syntax::name(s@, i as int),
        within(r, s@.len() as int),
{
    let a = skip_ws(s, i);
    if a < s.len() && is_alphabetic(s[a]) {
        let e = ident_end(s, a + 1);
        let n = text_of(s, a, e);
        if KeyWord::lookup(n.as_str()).is_some() || same_text(n.as_str(), "then") {
            Err(Failure { at: a, kind: ErrorKind::Ident })
        } else {
            Ok((skip_ws(s, e), n))
        }
    } else {
        Err(Failure { at: a, kind: ErrorKind::Ident })
    }
}

proof fn lemma_numeral_chars(s: Seq<char>, i: int, dot: bool)
    requires
        0 <= i <= s.len(),
    ensures
        i <= syntax::numeral_end(s, i, dot) <= s.len(),
        forall|k: int|
            i <= k < syntax::numeral_end(s, i, dot) ==> digit(#[trigger] s[k]) || s[k] == '.',
    decreases s.len() - i,
{
    if i < s.len() && digit(s[i]) {
        lemma_numeral_chars(s, i + 1, dot);
    } else if i < s.len() && s[i] == '.' && !dot {
        lemma_numeral_chars(s, i + 1, true);
    }
}

fn numeral_end(s: &Vec<char>, i: usize) -> (r: usize)
    requires
        i <= s@.len(),
    ensures
        r == syntax::numeral_end(s@, i as int, false),
        i <= r <= s@.len(),
{
    let mut j = i;
    let mut dot = false;
    while j < s.len() && (('0' <= s[j] && s[j] <= '9') || (s[j] == '.' && !dot))
        invariant
            i <= j <= s@.len(),
            syntax::numeral_end(s@, i as int, false) == syntax::numeral_end(s@, j as int, dot),
        decreases s@.len() - j,
    {
        if s[j] == '.' && !('0' <= s[j] && s[j] <= '9') {
            dot = true;
        }
        j = j + 1;
    }
    j
}

fn has_dot(s: &Vec<char>, a: usize, e: usize) -> (r: bool)
    requires
        a <= e <= s@.len(),
    ensures
        r == syntax::has_dot(s@.subrange(a as int, e as int)),
{
    let ghost t = s@.subrange(a as int, e as int);
    let mut k = a;
    while k < e
        invariant
            a <= k <= e <= s@.len(),
            t == s@.subrange(a as int, e as int),
            forall|m: int| 0 <= m < k - a ==> t[m] != '.',
        decreases e - k,
    {
        if s[k] == '.' {
            assert(t[k - a] == '.');
            return true;
        }
        k = k + 1;
    }
    false
}

fn decimal(s: &Vec<char>, a: usize, e: usize) -> (r: Option<i128>)
    requires
        a <= e <= s@.len(),
        forall|k: int| a <= k < e ==> digit(#[trigger] s@[k]),
    ensures
        match r {
            Some(v) => v == decimal_value(s@.subrange(a as int, e as int)),
            None => decimal_value(s@.subrange(a as int, e as int)) > i128::MAX,
        },
{
    let mut v: i128 = 0;
    let mut over = false;
    let mut k = a;
    while k < e
        invariant
            a <= k <= e <= s@.len(),
            forall|m: int| a <= m < e ==> digit(#[trigger] s@[m]),
            over ==> decimal_value(s@.subrange(a as int, k as int)) > i128::MAX,
            !over ==> v == decimal_value(s@.subrange(a as int, k as int)) && 0 <= v,
        decreases e - k,
    {
        let ghost before = s@.subrange(a as int, k as int);
        let ghost after = s@.subrange(a as int, k + 1);
        assert(after.drop_last() =~= before);
        assert(after.last() == s@[k as int]);
        proof {
            lemma_decimal_value_nonneg(before);
        }
        let c = s[k];
        let d: i128 = if c == '0' {
            0
        } else if c == '1' {
            1
        } else if c == '2' {
            2
        } else if c == '3' {
            3
        } else if c == '4' {
            4
        } else if c == '5' {
            5
        } else if c == '6' {
            6
        } else if c == '7' {
            7
        } else if c == '8' {
            8
        } else {
            9
        };
        assert(d == digit_value(c));
        if !over {
            if v > (i128::MAX - d) / 10 {
                assert(v * 10 + d > i128::MAX) by (nonlinear_arith)
                    requires
                        v > (i128::MAX - d) / 10,
                        0 <= d <= 9,
                ;
                over = true;
            } else {
                assert(v * 10 + d <= i128::MAX) by (nonlinear_arith)
                    requires
                        v <= (i128::MAX - d) / 10,
                        0 <= v,
                        0 <= d <= 9,
                ;
                v = v * 10 + d;
            }
        } else {
            let ghost dv = decimal_value(before);
            assert(dv * 10 + d > i128::MAX) by (nonlinear_arith)
                requires
                    dv > i128::MAX,
                    0 <= d,
            ;
        }
        k = k + 1;
    }
    if over {
        None
    } else {
        Some(v)
    }
}

fn number(s: &Vec<char>, i: usize) -> (r: Result<(usize, Node), Failure>)
    requires
        i <= s@.len(),
    ensures
        node_res(r) == syntax::number(s@, i as int),
        within(r, s@.len() as int),
{
    let a = skip_ws(s, i);
    if a < s.len() && '0' <= s[a] && s[a] <= '9' {
        let e = numeral_end(s, a + 1);
        proof {
            lemma_numeral_chars(s@, a + 1, false);
        }
        if has_dot(s, a, e) {
            Ok((skip_ws(s, e), Node::Float(text_of(s, a, e))))
        } else {
            let ghost t = s@.subrange(a as int, e as int);
            assert forall|k: int| a <= k < e implies digit(#[trigger] s@[k]) by {
                if k > a && s@[k] == '.' {
                    assert(t[k - a] == '.');
                }
            }
            match decimal(s, a, e) {
                Some(v) => Ok((skip_ws(s, e), Node::Int(v))),
                None => Err(Failure { at: a, kind: ErrorKind::Int }),
            }
        }
    } else {
        Err(Failure { at: a, kind: ErrorKind::Float })
    }
}

fn quote_end(s: &Vec<char>, i: usize) -> (r: usize)
    requires
        i <= s@.len(),
    ensures
        r == syntax::quote_end(s@, i as int),
        i <= r <= s@.len(),
{
    let mut j = i;
    while j < s.len() && s[j] != '"'
        invariant
            i <= j <= s@.len(),
            syntax::quote_end(s@, i as int) == syntax::quote_end(s@, j as int),
        decreases s@.len() - j,
    {
        j = j + 1;
    }
    j
}

fn string(s: &Vec<char>, i: usize) -> (r: Result<(usize, Node), Failure>)
    requires
        i <= s@.len(),
    ensures
        node_res(r) == syntax::string(s@, i as int),
        within(r, s@.len() as int),
{
    let a = skip_ws(s, i);
    if a < s.len() && s[a] == '"' {
        let e = quote_end(s, a + 1);
        if e < s.len() {
            Ok((skip_ws(s, e + 1), Node::Str(text_of(s, a + 1, e))))
        } else {
            Err(Failure { at: e, kind: tag_kind("\"") })
        }
    } else {
        Err(Failure { at: a, kind: tag_kind("\"") })
    }
}

fn prefix_run(s: &Vec<char>, i: usize, c: char) -> (r: (usize, usize))
    requires
        i < s@.len(),
    ensures
        (r.0 as int, r.1 as nat) == syntax::prefix_run(s@, i as int, c),
        r.0 <= s@.len(),
{
    let mut j = i;
    let mut n: usize = 1;
    let len = s.len();
    loop
        invariant
            len == s@.len(),
            i <= j < s@.len(),
            1 <= n <= j - i + 1,
            syntax::prefix_run(s@, i as int, c) == ({
                let (e, m) = syntax::prefix_run(s@, j as int, c);
                (e, (m + n - 1) as nat)
            }),
        decreases s@.len() - j,
    {
        let k = skip_ws(s, j + 1);
        if k < s.len() && s[k] == c {
            j = k;
            n = n + 1;
        } else {
            return (k, n);
        }
    }
}

fn binary_op(s: &Vec<char>, i: usize, level: usize) -> (r: Option<(usize, Operator)>)
    requires
        i <= s@.len(),
    ensures
        match r {
            Some((j, op)) => syntax::binary_op(s@, i as int, level as int) == Some(
                (j as int, op),
            ) && j <= s@.len(),
            None => syntax::binary_op(s@, i as int, level as int) is None,
        },
{
    if level == 6 {
        match word(s, i, "or") {
            Ok(j) => Some((j, Operator::Or)),
            Err(_) => None,
        }
    } else if level == 5 {
        match word(s, i, "and") {
            Ok(j) => Some((j, Operator::And)),
            Err(_) => None,
        }
    } else if level == 4 {
        match token(s, i, "!=") {
            Ok(j) => Some((j, Operator::NotEqual)),
            Err(_) => match token(s, i, "==") {
                Ok(j) => Some((j, Operator::Equality)),
                Err(_) => None,
            },
        }
    } else if level == 3 {
        match token(s, i, "<=") {
            Ok(j) => Some((j, Operator::LessEqual)),
            Err(_) => match token(s, i, "<") {
                Ok(j) => Some((j, Operator::LessThan)),
                Err(_) => match token(s, i, ">=") {
                    Ok(j) => Some((j, Operator::GreaterEqual)),
                    Err(_) => match token(s, i, ">") {
                        Ok(j) => Some((j, Operator::GreaterThan)),
                        Err(_) => None,
                    },
                },
            },
        }
    } else if level == 2 {
        match token(s, i, "-") {
            Ok(j) => Some((j, Operator::Minus)),
            Err(_) => match token(s, i, "+") {
                Ok(j) => Some((j, Operator::Plus)),
                Err(_) => None,
            },
        }
    } else {
        match token(s, i, "/") {
            Ok(j) => Some((j, Operator::Divide)),
            Err(_) => match token(s, i, "*") {
                Ok(j) => Some((j, Operator::Multiply)),
                Err(_) => None,
            },
        }
    }
}

fn declarations(s: &Vec<char>, i: usize) -> (r: (usize, Vec<Node>, Failure))
    requires
        i <= s@.len(),
    ensures
        (r.0 as int, nodes_view(r.1@), miss_of(r.2)) == syntax::declarations(s@, i as int),
        i <= r.0 <= s@.len(),
        r.2.at <= s@.len(),
    decreases s@.len() - i, 71int,
{
    let mut items: Vec<Node> = Vec::new();
    let mut j = i;
    loop
        invariant
            i <= j <= s@.len(),
            syntax::declarations(s@, i as int) == ({
                let (k, rest, m) = syntax::declarations(s@, j as int);
                (k, nodes_view(items@) + rest, m)
            }),
        decreases s@.len() - j,
    {
        match declaration(s, j) {
            Ok((k, d)) => {
                if j < k && k <= s.len() {
                    proof {
                        let (e, rest, m) = syntax::declarations(s@, k as int);
                        lemma_nodes_view_push(items@, d);
                        assert(nodes_view(items@) + (seq![d@] + rest) =~= nodes_view(items@).push(
                            d@,
                        ) + rest);
                    }
                    items.push(d);
                    j = k;
                } else {
                    assert(nodes_view(items@) + Seq::<Ast>::empty() =~= nodes_view(items@));
                    return (j, items, Failure { at: j, kind: ErrorKind::AnyChar });
                }
            },
            Err(f) => {
                assert(nodes_view(items@) + Seq::<Ast>::empty() =~= nodes_view(items@));
                return (j, items, f);
            },
        }
    }
}

fn declaration(s: &Vec<char>, i: usize) -> (r: Result<(usize, Node), Failure>)
    requires
        i <= s@.len(),
    ensures
        node_res(r) == syntax::declaration(s@, i as int),
        within(r, s@.len() as int),
    decreases s@.len() - i, 70int,
{
    match var_decl(s, i) {
        Ok(r) => Ok(r),
        Err(_) => statement(s, i),
    }
}

fn var_decl(s: &Vec<char>, i: usize) -> (r: Result<(usize, Node), Failure>)
    requires
        i <= s@.len(),
    ensures
        node_res(r) == syntax::var_decl(s@, i as int),
        within(r, s@.len() as int),
    decreases s@.len() - i, 69int,
{
    match name(s, i) {
        Err(f) => Err(f),
        Ok((j, n)) => match token(s, j, "=") {
            Err(f) => Err(f),
            Ok(k) => if !(i < k && k <= s.len()) {
                Err(Failure { at: k, kind: tag_kind("=") })
            } else {
                match fun_decl(s, k) {
                    Ok((e, (ps, b))) => Ok(
                        (e, Node::Variable { ident: n, param: ps, block: Box::new(b) }),
                    ),
                    Err(_) => match statement(s, k) {
                        Ok((e, b)) => {
                            let ps: Vec<String> = Vec::new();
                            assert(names_view(ps@) =~= Seq::empty());
                            Ok((e, Node::Variable { ident: n, param: ps, block: Box::new(b) }))
                        },
                        Err(f) => Err(f),
                    },
                }
            },
        },
    }
}

fn statement(s: &Vec<char>, i: usize) -> (r: Result<(usize, Node), Failure>)
    requires
        i <= s@.len(),
    ensures
        node_res(r) == syntax::statement(s@, i as int),
        within(r, s@.len() as int),
    decreases s@.len() - i, 68int,
{
    match print_stmt(s, i) {
        Ok(r) => Ok(r),
        Err(_) => match if_stmt(s, i) {
            Ok(r) => Ok(r),
            Err(_) => match chain(s, i, 6) {
                Ok(r) => Ok(r),
                Err(f) => match block(s, i) {
                    Ok(r) => Ok(r),
                    Err(_) => Err(f),
                },
            },
        },
    }
}

fn print_stmt(s: &Vec<char>, i: usize) -> (r: Result<(usize, Node), Failure>)
    requires
        i <= s@.len(),
    ensures
        node_res(r) == syntax::print_stmt(s@, i as int),
        within(r, s@.len() as int),
    decreases s@.len() - i, 67int,
{
    match word(s, i, "print") {
        Err(f) => Err(f),
        Ok(j) => if !(i < j && j <= s.len()) {
            Err(Failure { at: j, kind: tag_kind("print") })
        } else {
            match if_stmt(s, j) {
                Ok((k, e)) => Ok((k, Node::Print(Box::new(e)))),
                Err(_) => match chain(s, j, 6) {
                    Ok((k, e)) => Ok((k, Node::Print(Box::new(e)))),
                    Err(f) => Err(f),
                },
            }
        },
    }
}

fn conditional(c: Node, t: Node, els: Option<Node>) -> (r: Node)
    ensures
        r@ == syntax::conditional(
            c@,
            t@,
            match els {
                Some(e) => Some(e@),
                None => None,
            },
        ),
{
    Node::Conditional {
        condition: Box::new(c),
        if_branch: Box::new(t),
        else_branch: match els {
            Some(e) => Some(Box::new(e)),
            None => None,
        },
    }
}

fn if_stmt(s: &Vec<char>, i: usize) -> (r: Result<(usize, Node), Failure>)
    requires
        i <= s@.len(),
    ensures
        node_res(r) == syntax::if_stmt(s@, i as int),
        within(r, s@.len() as int),
    decreases s@.len() - i, 66int,
{
    match word(s, i, "if") {
        Err(f) => Err(f),
        Ok(j) => if !(i < j && j <= s.len()) {
            Err(Failure { at: j, kind: tag_kind("if") })
        } else {
            match chain(s, j, 6) {
                Err(f) => Err(f),
                Ok((k, c)) => match word(s, k, "then") {
                    Err(f) => Err(f),
                    Ok(l) => if !(i < l && l <= s.len()) {
                        Err(Failure { at: l, kind: tag_kind("then") })
                    } else {
                        match statement(s, l) {
                            Err(f) => Err(f),
                            Ok((m, t)) => match word(s, m, "else") {
                                Ok(n) => if i < n && n <= s.len() {
                                    match statement(s, n) {
                                        Ok((e, f)) => Ok((e, conditional(c, t, Some(f)))),
                                        Err(_) => Ok((m, conditional(c, t, None))),
                                    }
                                } else {
                                    Ok((m, conditional(c, t, None)))
                                },
                                Err(_) => Ok((m, conditional(c, t, None))),
                            },
                        }
                    },
                },
            }
        },
    }
}

fn chain(s: &Vec<char>, i: usize, level: usize) -> (r: Result<(usize, Node), Failure>)
    requires
        i <= s@.len(),
        level <= 6,
    ensures
        node_res(r) == syntax::chain(s@, i as int, level as int),
        within(r, s@.len() as int),
    decreases s@.len() - i, 40 + 3 * level,
{
    if level < 1 {
        Err(Failure { at: i, kind: ErrorKind::Comparison })
    } else {
        match operand_of(s, i, level) {
            Ok((j, a)) => if i <= j && j <= s.len() {
                Ok(chain_rest(s, j, level, a))
            } else {
                Ok((j, a))
            },
            Err(f) => Err(f),
        }
    }
}

fn operand_of(s: &Vec<char>, i: usize, level: usize) -> (r: Result<(usize, Node), Failure>)
    requires
        i <= s@.len(),
        level <= 6,
    ensures
        node_res(r) == syntax::operand_of(s@, i as int, level as int),
        within(r, s@.len() as int),
    decreases s@.len() - i, 38 + 3 * level,
{
    if level == 1 {
        unary(s, i)
    } else if 1 < level {
        chain(s, i, level - 1)
    } else {
        Err(Failure { at: i, kind: ErrorKind::Comparison })
    }
}

fn chain_rest(s: &Vec<char>, i: usize, level: usize, first: Node) -> (r: (usize, Node))
    requires
        i <= s@.len(),
        1 <= level <= 6,
    ensures
        (r.0 as int, r.1@) == syntax::chain_rest(s@, i as int, level as int, first@),
        r.0 <= s@.len(),
    decreases s@.len() - i, 39 + 3 * level,
{
    let mut j = i;
    let mut acc = first;
    loop
        invariant
            i <= j <= s@.len(),
            1 <= level <= 6,
            syntax::chain_rest(s@, i as int, level as int, first@) == syntax::chain_rest(
                s@,
                j as int,
                level as int,
                acc@,
            ),
        decreases s@.len() - j,
    {
        match binary_op(s, j, level) {
            Some((p, op)) => if j < p && p <= s.len() {
                match operand_of(s, p, level) {
                    Ok((q, b)) => if j < q && q <= s.len() {
                        acc = Node::BinaryExpr { op, lhs: Box::new(acc), rhs: Box::new(b) };
                        j = q;
                    } else {
                        return (j, acc);
                    },
                    Err(_) => {
                        return (j, acc);
                    },
                }
            } else {
                return (j, acc);
            },
            None => {
                return (j, acc);
            },
        }
    }
}

fn unary(s: &Vec<char>, i: usize) -> (r: Result<(usize, Node), Failure>)
    requires
        i <= s@.len(),
    ensures
        node_res(r) == syntax::unary(s@, i as int),
        within(r, s@.len() as int),
    decreases s@.len() - i, 28int,
{
    match call(s, i) {
        Ok(r) => Ok(r),
        Err(_) => {
            let a = skip_ws(s, i);
            if a < s.len() && (s[a] == '-' || s[a] == '!') {
                let c = s[a];
                let (j, n) = prefix_run(s, a, c);
                if i < j && j <= s.len() {
                    match operand(s, j) {
                        Ok((k, child)) => {
                            let op = if n % 2 == 0 {
                                Operator::Plus
                            } else if c == '-' {
                                Operator::Minus
                            } else {
                                Operator::Bang
                            };
                            Ok((k, Node::UnaryExpr { op, child: Box::new(child) }))
                        },
                        Err(f) => Err(f),
                    }
                } else {
                    Err(Failure { at: j, kind: ErrorKind::AnyChar })
                }
            } else {
                primary(s, i)
            }
        },
    }
}

fn operand(s: &Vec<char>, i: usize) -> (r: Result<(usize, Node), Failure>)
    requires
        i <= s@.len(),
    ensures
        node_res(r) == syntax::operand(s@, i as int),
        within(r, s@.len() as int),
    decreases s@.len() - i, 27int,
{
    match call(s, i) {
        Ok(r) => Ok(r),
        Err(_) => primary(s, i),
    }
}

fn call(s: &Vec<char>, i: usize) -> (r: Result<(usize, Node), Failure>)
    requires
        i <= s@.len(),
    ensures
        node_res(r) == syntax::call(s@, i as int),
        within(r, s@.len() as int),
    decreases s@.len() - i, 26int,
{
    match name(s, i) {
        Err(f) => Err(f),
        Ok((j, n)) => if i < j && j <= s.len() {
            let (k, args) = arguments(s, j);
            Ok((k, Node::Ident { ident: n, args }))
        } else {
            Err(Failure { at: j, kind: ErrorKind::Ident })
        },
    }
}

fn breaks_before(s: &Vec<char>, i: usize) -> (r: bool)
    requires
        i <= s@.len(),
    ensures
        r == syntax::breaks_before(s@, i as int),
{
    let mut k = i;
    while k > 0 && is_whitespace(s[k - 1])
        invariant
            k <= i <= s@.len(),
            syntax::breaks_before(s@, i as int) == syntax::breaks_before(s@, k as int),
        decreases k,
    {
        if s[k - 1] == '\n' {
            return true;
        }
        k = k - 1;
    }
    false
}

fn arguments(s: &Vec<char>, i: usize) -> (r: (usize, Vec<Node>))
    requires
        i <= s@.len(),
    ensures
        (r.0 as int, nodes_view(r.1@)) == syntax::arguments(s@, i as int),
        r.0 <= s@.len(),
    decreases s@.len() - i, 25int,
{
    let mut items: Vec<Node> = Vec::new();
    let mut j = i;
    loop
        invariant
            i <= j <= s@.len(),
            syntax::arguments(s@, i as int) == ({
                let (k, rest) = syntax::arguments(s@, j as int);
                (k, nodes_view(items@) + rest)
            }),
        decreases s@.len() - j,
    {
        if breaks_before(s, j) {
            assert(nodes_view(items@) + Seq::<Ast>::empty() =~= nodes_view(items@));
            return (j, items);
        }
        match argument(s, j) {
            Ok((k, d)) => {
                if j < k && k <= s.len() {
                    proof {
                        let (e, rest) = syntax::arguments(s@, k as int);
                        lemma_nodes_view_push(items@, d);
                        assert(nodes_view(items@) + (seq![d@] + rest) =~= nodes_view(items@).push(
                            d@,
                        ) + rest);
                    }
                    items.push(d);
                    j = k;
                } else {
                    assert(nodes_view(items@) + Seq::<Ast>::empty() =~= nodes_view(items@));
                    return (j, items);
                }
            },
            Err(_) => {
                assert(nodes_view(items@) + Seq::<Ast>::empty() =~= nodes_view(items@));
                return (j, items);
            },
        }
    }
}

fn argument(s: &Vec<char>, i: usize) -> (r: Result<(usize, Node), Failure>)
    requires
        i <= s@.len(),
    ensures
        node_res(r) == syntax::argument(s@, i as int),
        within(r, s@.len() as int),
    decreases s@.len() - i, 24int,
{
    match fun_decl(s, i) {
        Ok((j, (ps, b))) => Ok(
            (j, Node::Variable { ident: String::new(), param: ps, block: Box::new(b) }),
        ),
        Err(_) => match name(s, i) {
            Ok((j, n)) => {
                let args: Vec<Node> = Vec::new();
                assert(nodes_view(args@) =~= Seq::empty());
                Ok((j, Node::Ident { ident: n, args }))
            },
            Err(_) => primary(s, i),
        },
    }
}

fn primary(s: &Vec<char>, i: usize) -> (r: Result<(usize, Node), Failure>)
    requires
        i <= s@.len(),
    ensures
        node_res(r) == syntax::primary(s@, i as int),
        within(r, s@.len() as int),
    decreases s@.len() - i, 23int,
{
    match word(s, i, "true") {
        Ok(j) => Ok((j, Node::True)),
        Err(_) => match word(s, i, "false") {
            Ok(j) => Ok((j, Node::False)),
            Err(_) => match string(s, i) {
                Ok(r) => Ok(r),
                Err(_) => match paren(s, i) {
                    Ok(r) => Ok(r),
                    Err(_) => number(s, i),
                },
            },
        },
    }
}

fn paren(s: &Vec<char>, i: usize) -> (r: Result<(usize, Node), Failure>)
    requires
        i <= s@.len(),
    ensures
        node_res(r) == syntax::paren(s@, i as int),
        within(r, s@.len() as int),
    decreases s@.len() - i, 22int,
{
    match token(s, i, "(") {
        Err(f) => Err(f),
        Ok(j) => if !(i < j && j <= s.len()) {
            Err(Failure { at: j, kind: tag_kind("(") })
        } else {
            match declaration(s, j) {
                Err(f) => Err(f),
                Ok((k, d)) => match token(s, k, ")") {
                    Ok(e) => Ok((e, d)),
                    Err(f) => Err(f),
                },
            }
        },
    }
}

fn fun_decl(s: &Vec<char>, i: usize) -> (r: Result<(usize, (Vec<String>, Node)), Failure>)
    requires
        i <= s@.len(),
    ensures
        fun_res(r) == syntax::fun_decl(s@, i as int),
        within(r, s@.len() as int),
    decreases s@.len() - i, 21int,
{
    match word(s, i, "fn") {
        Err(f) => Err(f),
        Ok(j) => if !(i < j && j <= s.len()) {
            Err(Failure { at: j, kind: tag_kind("fn") })
        } else {
            let (k, ps) = params(s, j);
            if !(i < k && k <= s.len()) {
                Err(Failure { at: k, kind: tag_kind("{") })
            } else {
                match block(s, k) {
                    Ok((e, b)) => Ok((e, (ps, b))),
                    Err(f) => Err(f),
                }
            }
        },
    }
}

fn params(s: &Vec<char>, i: usize) -> (r: (usize, Vec<String>))
    requires
        i <= s@.len(),
    ensures
        (r.0 as int, names_view(r.1@)) == syntax::params(s@, i as int),
        i <= r.0 <= s@.len(),
{
    let mut names: Vec<String> = Vec::new();
    let mut j = i;
    loop
        invariant
            i <= j <= s@.len(),
            syntax::params(s@, i as int) == ({
                let (k, rest) = syntax::params(s@, j as int);
                (k, names_view(names@) + rest)
            }),
        decreases s@.len() - j,
    {
        match name(s, j) {
            Ok((k, n)) => {
                if j < k && k <= s.len() {
                    proof {
                        let (e, rest) = syntax::params(s@, k as int);
                        lemma_names_view_push(names@, n);
                        assert(names_view(names@) + (seq![n@] + rest) =~= names_view(names@).push(
                            n@,
                        ) + rest);
                    }
                    names.push(n);
                    j = k;
                } else {
                    assert(names_view(names@) + Seq::<Seq<char>>::empty() =~= names_view(names@));
                    return (j, names);
                }
            },
            Err(_) => {
                assert(names_view(names@) + Seq::<Seq<char>>::empty() =~= names_view(names@));
                return (j, names);
            },
        }
    }
}

fn block(s: &Vec<char>, i: usize) -> (r: Result<(usize, Node), Failure>)
    requires
        i <= s@.len(),
    ensures
        node_res(r) == syntax::block(s@, i as int),
        within(r, s@.len() as int),
    decreases s@.len() - i, 19int,
{
    match token(s, i, "{") {
        Err(f) => Err(f),
        Ok(j) => if !(i < j && j <= s.len()) {
            Err(Failure { at: j, kind: tag_kind("{") })
        } else {
            let (k, items, _) = declarations(s, j);
            match token(s, k, "}") {
                Ok(e) => Ok((e, Node::Block(items))),
                Err(f) => Err(f),
            }
        },
    }
}

/// Why a source text is not a program: the recogniser's failure, with the
/// remaining text from where it failed, and the place of that failure.
#[derive(Debug, PartialEq, Eq)]
pub struct ParseError {
    pub error: Error,
    pub position: Position,
}

/// Parses a whole source text into its top-level declarations and statements.
pub fn program(source: &str) -> (r: Result<Vec<Node>, ParseError>)
    ensures
        match r {
            Ok(items) => syntax::program_of(source@) == Ok::<Seq<Ast>, Miss>(nodes_view(items@)),
            Err(e) => match syntax::program_of(source@) {
                Ok(_) => false,
                Err(m) => {
                    &&& 0 <= m.at <= source@.len()
                    &&& e.error.input@ == source@.subrange(m.at, source@.len() as int)
                    &&& kind_view(e.error.code) == m.kind
                    &&& e.position.idx == m.at
                    &&& e.position.line == line_of(source@, m.at)
                    &&& e.position.column == column_of(source@, m.at)
                },
            },
        },
{
    let s = chars_of(source);
    let (k, items, f) = declarations(&s, 0);
    if skip_ws(&s, k) == s.len() {
        Ok(items)
    } else {
        let position = locate(&s, f.at);
        let input = text_of(&s, f.at, s.len());
        Err(ParseError { error: Error::new(input, f.kind), position })
    }
}

} // verus!
