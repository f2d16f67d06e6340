use vstd::prelude::*;
use crate::ast::{Ast, Operator, keyword_of};
use crate::chars::{alphabetic, whitespace, ident_char, digit, decimal_value};

verus! {

/// The model of a parse error's kind.
pub enum Kind {
    Tag(Seq<char>),
    Ident,
    Float,
    Int,
    AnyChar,
    Comparison,
}

/// The model of a failed parse: where it failed and what was expected there.
pub struct Miss {
    pub at: int,
    pub kind: Kind,
}

pub type Parsed<T> = Result<(int, T), Miss>;

/// Whether `i < j <= s.len()`: `j` lies strictly ahead of `i` in `s`.
pub open spec fn ahead(s: Seq<char>, i: int, j: int) -> bool {
    i < j <= s.len()
}

/// The first position at or after `i` that does not hold whitespace.
pub open spec fn skip_ws(s: Seq<char>, i: int) -> int
    decreases s.len() - i,
{
    if 0 <= i < s.len() && whitespace(s[i]) {
        skip_ws(s, i + 1)
    } else {
        i
    }
}

/// Whether `lit` is written in `s` at `i`.
pub open spec fn lit_at(s: Seq<char>, i: int, lit: Seq<char>) -> bool {
    0 <= i && i + lit.len() <= s.len() && s.subrange(i, i + lit.len()) == lit
}

/// `lit` between optional whitespace; the position after the trailing whitespace.
pub open spec fn token(s: Seq<char>, i: int, lit: Seq<char>) -> Result<int, Miss> {
    let a = skip_ws(s, i);
    if lit_at(s, a, lit) {
        Ok(skip_ws(s, a + lit.len()))
    } else {
        Err(Miss { at: a, kind: Kind::Tag(lit) })
    }
}

/// A reserved word: a token not followed by a character that continues an identifier.
pub open spec fn word(s: Seq<char>, i: int, lit: Seq<char>) -> Result<int, Miss> {
    let a = skip_ws(s, i);
    let e = a + lit.len();
    if lit_at(s, a, lit) && !(e < s.len() && ident_char(s[e])) {
        Ok(skip_ws(s, e))
    } else {
        Err(Miss { at: a, kind: Kind::Tag(lit) })
    }
}

/// The end of the run of identifier characters from `i`.
pub open spec fn ident_end(s: Seq<char>, i: int) -> int
    decreases s.len() - i,
{
    if 0 <= i < s.len() && ident_char(s[i]) {
        ident_end(s, i + 1)
    } else {
        i
    }
}

/// A word the grammar keeps for itself: a keyword, or `then`.
pub open spec fn reserved(n: Seq<char>) -> bool {
    keyword_of(n) is Some || n == "then"@
}

/// An identifier that is no reserved word, between optional whitespace.
pub open spec fn name(s: Seq<char>, i: int) -> Parsed<Seq<char>> {
    let a = skip_ws(s, i);
    if 0 <= a < s.len() && alphabetic(s[a]) {
        let e = ident_end(s, a + 1);
        let n = s.subrange(a, e);
        if reserved(n) {
            Err(Miss { at: a, kind: Kind::Ident })
        } else {
            Ok((skip_ws(s, e), n))
        }
    } else {
        Err(Miss { at: a, kind: Kind::Ident })
    }
}

/// The end of a numeral's tail from `i`: digits, and one `.` unless `dot` says
/// one was seen.
pub open spec fn numeral_end(s: Seq<char>, i: int, dot: bool) -> int
    decreases s.len() - i,
{
    if 0 <= i < s.len() && digit(s[i]) {
        numeral_end(s, i + 1, dot)
    } else if 0 <= i < s.len() && s[i] == '.' && !dot {
        numeral_end(s, i + 1, true)
    } else {
        i
    }
}

/// The end of the string's content: the first `"` at or after `i`, or the end.
pub open spec fn quote_end(s: Seq<char>, i: int) -> int
    decreases s.len() - i,
{
    if 0 <= i < s.len() && s[i] != '"' {
        quote_end(s, i + 1)
    } else {
        i
    }
}

pub open spec fn has_dot(t: Seq<char>) -> bool {
    exists|k: int| 0 <= k < t.len() && t[k] == '.'
}

/// A numeric literal: a float keeps its text, an integer must fit in `i128`.
pub open spec fn number(s: Seq<char>, i: int) -> Parsed<Ast> {
    let a = skip_ws(s, i);
    if 0 <= a < s.len() && digit(s[a]) {
        let e = numeral_end(s, a + 1, false);
        let t = s.subrange(a, e);
        if has_dot(t) {
            Ok((skip_ws(s, e), Ast::Float(t)))
        } else if decimal_value(t) <= i128::MAX {
            Ok((skip_ws(s, e), Ast::Int(decimal_value(t))))
        } else {
            Err(Miss { at: a, kind: Kind::Int })
        }
    } else {
        Err(Miss { at: a, kind: Kind::Float })
    }
}

/// A double-quoted string, without escapes.
pub open spec fn string(s: Seq<char>, i: int) -> Parsed<Ast> {
    let a = skip_ws(s, i);
    if 0 <= a < s.len() && s[a] == '"' {
        let e = quote_end(s, a + 1);
        if e < s.len() {
            Ok((skip_ws(s, e + 1), Ast::Str(s.subrange(a + 1, e))))
        } else {
            Err(Miss { at: e, kind: Kind::Tag("\""@) })
        }
    } else {
        Err(Miss { at: a, kind: Kind::Tag("\""@) })
    }
}

/// The end of a run of `c` tokens from `i`, where `s[i] == c`, and its length.
pub open spec fn prefix_run(s: Seq<char>, i: int, c: char) -> (int, nat)
    decreases s.len() - i,
{
    let j = skip_ws(s, i + 1);
    if 0 <= i < s.len() && ahead(s, i, j) && j < s.len() && s[j] == c {
        let (e, n) = prefix_run(s, j, c);
        (e, n + 1)
    } else {
        (j, 1)
    }
}

/// The operators of a binary level: 6 `or`, 5 `and`, 4 equality, 3 comparison,
/// 2 sums, 1 products.
pub open spec fn binary_op(s: Seq<char>, i: int, level: int) -> Option<(int, Operator)> {
    if level == 6 {
        match word(s, i, "or"@) {
            Ok(j) => Some((j, Operator::Or)),
            Err(_) => None,
        }
    } else if level == 5 {
        match word(s, i, "and"@) {
            Ok(j) => Some((j, Operator::And)),
            Err(_) => None,
        }
    } else if level == 4 {
        match token(s, i, "!="@) {
            Ok(j) => Some((j, Operator::NotEqual)),
            Err(_) => match token(s, i, "=="@) {
                Ok(j) => Some((j, Operator::Equality)),
                Err(_) => None,
            },
        }
    } else if level == 3 {
        match token(s, i, "<="@) {
            Ok(j) => Some((j, Operator::LessEqual)),
            Err(_) => match token(s, i, "<"@) {
                Ok(j) => Some((j, Operator::LessThan)),
                Err(_) => match token(s, i, ">="@) {
                    Ok(j) => Some((j, Operator::GreaterEqual)),
                    Err(_) => match token(s, i, ">"@) {
                        Ok(j) => Some((j, Operator::GreaterThan)),
                        Err(_) => None,
                    },
                },
            },
        }
    } else if level == 2 {
        match token(s, i, "-"@) {
            Ok(j) => Some((j, Operator::Minus)),
            Err(_) => match token(s, i, "+"@) {
                Ok(j) => Some((j, Operator::Plus)),
                Err(_) => None,
            },
        }
    } else {
        match token(s, i, "/"@) {
            Ok(j) => Some((j, Operator::Divide)),
            Err(_) => match token(s, i, "*"@) {
                Ok(j) => Some((j, Operator::Multiply)),
                Err(_) => None,
            },
        }
    }
}

/// The operator that an even or odd run of prefix `-` or `!` stands for.
pub open spec fn prefix_op(c: char, n: nat) -> Operator {
    if n % 2 == 0 {
        Operator::Plus
    } else if c == '-' {
        Operator::Minus
    } else {
        Operator::Bang
    }
}

pub open spec fn binary(op: Operator, lhs: Ast, rhs: Ast) -> Ast {
    Ast::Binary { op, lhs: Box::new(lhs), rhs: Box::new(rhs) }
}

/// `declaration*`: as many declarations as follow each other from `i`, the
/// position after them, and the failure that ended the run.
pub open spec fn declarations(s: Seq<char>, i: int) -> (int, Seq<Ast>, Miss)
    decreases s.len() - i, 71int,
{
    match declaration(s, i) {
        Ok((j, d)) => if ahead(s, i, j) {
            let (k, rest, m) = declarations(s, j);
            (k, seq![d] + rest, m)
        } else {
            (i, Seq::empty(), Miss { at: i, kind: Kind::AnyChar })
        },
        Err(m) => (i, Seq::empty(), m),
    }
}

/// `declaration := var_decl | statement`
pub open spec fn declaration(s: Seq<char>, i: int) -> Parsed<Ast>
    decreases s.len() - i, 70int,
{
    match var_decl(s, i) {
        Ok(r) => Ok(r),
        Err(_) => statement(s, i),
    }
}

/// `var_decl := IDENT "=" ( fun_decl | statement )`
pub open spec fn var_decl(s: Seq<char>, i: int) -> Parsed<Ast>
    decreases s.len() - i, 69int,
{
    match name(s, i) {
        Err(m) => Err(m),
        Ok((j, n)) => match token(s, j, "="@) {
            Err(m) => Err(m),
            Ok(k) => if !ahead(s, i, k) {
                Err(Miss { at: k, kind: Kind::Tag("="@) })
            } else {
                match fun_decl(s, k) {
                    Ok((e, (ps, b))) => Ok(
                        (e, Ast::Variable { name: n, params: ps, body: Box::new(b) }),
                    ),
                    Err(_) => match statement(s, k) {
                        Ok((e, b)) => Ok(
                            (e, Ast::Variable { name: n, params: Seq::empty(), body: Box::new(b) }),
                        ),
                        Err(m) => Err(m),
                    },
                }
            },
        },
    }
}

/// `statement := print_stmt | if_stmt | expression | block`; where none
/// applies, the failure is the expression's.
pub open spec fn statement(s: Seq<char>, i: int) -> Parsed<Ast>
    decreases s.len() - i, 68int,
{
    match print_stmt(s, i) {
        Ok(r) => Ok(r),
        Err(_) => match if_stmt(s, i) {
            Ok(r) => Ok(r),
            Err(_) => match chain(s, i, 6) {
                Ok(r) => Ok(r),
                Err(m) => match block(s, i) {
                    Ok(r) => Ok(r),
                    Err(_) => Err(m),
                },
            },
        },
    }
}

/// `print_stmt := "print" ( if_stmt | expression )`
pub open spec fn print_stmt(s: Seq<char>, i: int) -> Parsed<Ast>
    decreases s.len() - i, 67int,
{
    match word(s, i, "print"@) {
        Err(m) => Err(m),
        Ok(j) => if !ahead(s, i, j) {
            Err(Miss { at: j, kind: Kind::Tag("print"@) })
        } else {
            match if_stmt(s, j) {
                Ok((k, e)) => Ok((k, Ast::Print(Box::new(e)))),
                Err(_) => match chain(s, j, 6) {
                    Ok((k, e)) => Ok((k, Ast::Print(Box::new(e)))),
                    Err(m) => Err(m),
                },
            }
        },
    }
}

/// The conditional that `if_stmt` builds.
pub open spec fn conditional(c: Ast, t: Ast, els: Option<Ast>) -> Ast {
    Ast::Conditional {
        cond: Box::new(c),
        then: Box::new(t),
        els: match els {
            Some(e) => Some(Box::new(e)),
            None => None,
        },
    }
}

/// `if_stmt := "if" expression "then" statement ( "else" statement )?`
pub open spec fn if_stmt(s: Seq<char>, i: int) -> Parsed<Ast>
    decreases s.len() - i, 66int,
{
    match word(s, i, "if"@) {
        Err(m) => Err(m),
        Ok(j) => if !ahead(s, i, j) {
            Err(Miss { at: j, kind: Kind::Tag("if"@) })
        } else {
            match chain(s, j, 6) {
                Err(m) => Err(m),
                Ok((k, c)) => match word(s, k, "then"@) {
                    Err(m) => Err(m),
                    Ok(l) => if !ahead(s, i, l) {
                        Err(Miss { at: l, kind: Kind::Tag("then"@) })
                    } else {
                        match statement(s, l) {
                            Err(m) => Err(m),
                            Ok((m, t)) => match word(s, m, "else"@) {
                                Ok(n) => if ahead(s, i, n) {
                                    match statement(s, n) {
                                        Ok((e, f)) => Ok((e, conditional(c, t, Some(f)))),
                                        Err(_) => Ok((m, conditional(c, t, None))),
                                    }
                                } else {
                                    Ok((m, conditional(c, t, None)))
                                },
                                Err(_) => Ok((m, conditional(c, t, None))),
                            },
                        }
                    },
                },
            }
        },
    }
}

/// A binary level: its operand, then `( op operand )*`, folded to the left.
pub open spec fn chain(s: Seq<char>, i: int, level: int) -> Parsed<Ast>
    decreases s.len() - i, 40 + 3 * level,
{
    if level < 1 || level > 6 {
        Err(Miss { at: i, kind: Kind::Comparison })
    } else {
        match operand_of(s, i, level) {
            Ok((j, a)) => if i <= j <= s.len() {
                Ok(chain_rest(s, j, level, a))
            } else {
                Ok((j, a))
            },
            Err(m) => Err(m),
        }
    }
}

/// The operand of a binary level: the next level down, or `unary` below products.
pub open spec fn operand_of(s: Seq<char>, i: int, level: int) -> Parsed<Ast>
    decreases s.len() - i, 38 + 3 * level,
{
    if level == 1 {
        unary(s, i)
    } else if 1 < level <= 6 {
        chain(s, i, level - 1)
    } else {
        Err(Miss { at: i, kind: Kind::Comparison })
    }
}

/// The `( op operand )*` tail of a binary level, folded onto `acc`.
pub open spec fn chain_rest(s: Seq<char>, i: int, level: int, acc: Ast) -> (int, Ast)
    decreases s.len() - i, 39 + 3 * level,
{
    if level < 1 || level > 6 {
        (i, acc)
    } else {
        match binary_op(s, i, level) {
            Some((p, op)) => if ahead(s, i, p) {
                match operand_of(s, p, level) {
                    Ok((q, b)) => if ahead(s, i, q) {
                        chain_rest(s, q, level, binary(op, acc, b))
                    } else {
                        (i, acc)
                    },
                    Err(_) => (i, acc),
                }
            } else {
                (i, acc)
            },
            None => (i, acc),
        }
    }
}

/// `unary := call | "-"+ operand | "!"+ operand | primary`; a run of prefix
/// operators of even length stands for `+`.
pub open spec fn unary(s: Seq<char>, i: int) -> Parsed<Ast>
    decreases s.len() - i, 28int,
{
    match call(s, i) {
        Ok(r) => Ok(r),
        Err(_) => {
            let a = skip_ws(s, i);
            if 0 <= a < s.len() && (s[a] == '-' || s[a] == '!') {
                let (j, n) = prefix_run(s, a, s[a]);
                if ahead(s, i, j) {
                    match operand(s, j) {
                        Ok((k, c)) => Ok(
                            (k, Ast::Unary { op: prefix_op(s[a], n), child: Box::new(c) }),
                        ),
                        Err(m) => Err(m),
                    }
                } else {
                    Err(Miss { at: j, kind: Kind::AnyChar })
                }
            } else {
                primary(s, i)
            }
        },
    }
}

/// What a prefix operator applies to: `call | primary`.
pub open spec fn operand(s: Seq<char>, i: int) -> Parsed<Ast>
    decreases s.len() - i, 27int,
{
    match call(s, i) {
        Ok(r) => Ok(r),
        Err(_) => primary(s, i),
    }
}

/// `call := IDENT argument*`; with no arguments, a reference to a name.
pub open spec fn call(s: Seq<char>, i: int) -> Parsed<Ast>
    decreases s.len() - i, 26int,
{
    match name(s, i) {
        Err(m) => Err(m),
        Ok((j, n)) => if ahead(s, i, j) {
            let (k, args) = arguments(s, j);
            Ok((k, Ast::Ident { name: n, args }))
        } else {
            Err(Miss { at: j, kind: Kind::Ident })
        },
    }
}

/// Whether the whitespace just before `i` holds a line break.
pub open spec fn breaks_before(s: Seq<char>, i: int) -> bool
    decreases i,
{
    if 0 < i <= s.len() && whitespace(s[i - 1]) {
        s[i - 1] == '\n' || breaks_before(s, i - 1)
    } else {
        false
    }
}

/// `argument*`: as many arguments as follow each other from `i` on the same
/// line as what they follow.
pub open spec fn arguments(s: Seq<char>, i: int) -> (int, Seq<Ast>)
    decreases s.len() - i, 25int,
{
    if breaks_before(s, i) {
        (i, Seq::empty())
    } else {
        match argument(s, i) {
        Ok((j, a)) => if ahead(s, i, j) {
            let (k, rest) = arguments(s, j);
            (k, seq![a] + rest)
        } else {
            (i, Seq::empty())
        },
            Err(_) => (i, Seq::empty()),
        }
    }
}

/// `argument := fun_decl | IDENT | primary`: a function literal, a reference
/// to a name, or a primary expression.
pub open spec fn argument(s: Seq<char>, i: int) -> Parsed<Ast>
    decreases s.len() - i, 24int,
{
    match fun_decl(s, i) {
        Ok((j, (ps, b))) => Ok(
            (j, Ast::Variable { name: Seq::empty(), params: ps, body: Box::new(b) }),
        ),
        Err(_) => match name(s, i) {
            Ok((j, n)) => Ok((j, Ast::Ident { name: n, args: Seq::empty() })),
            Err(_) => primary(s, i),
        },
    }
}

/// `primary := BOOL | STRING | "(" declaration ")" | NUMBER`
pub open spec fn primary(s: Seq<char>, i: int) -> Parsed<Ast>
    decreases s.len() - i, 23int,
{
    match word(s, i, "true"@) {
        Ok(j) => Ok((j, Ast::Bool(true))),
        Err(_) => match word(s, i, "false"@) {
            Ok(j) => Ok((j, Ast::Bool(false))),
            Err(_) => match string(s, i) {
                Ok(r) => Ok(r),
                Err(_) => match paren(s, i) {
                    Ok(r) => Ok(r),
                    Err(_) => number(s, i),
                },
            },
        },
    }
}

/// `"(" declaration ")"`
pub open spec fn paren(s: Seq<char>, i: int) -> Parsed<Ast>
    decreases s.len() - i, 22int,
{
    match token(s, i, "("@) {
        Err(m) => Err(m),
        Ok(j) => if !ahead(s, i, j) {
            Err(Miss { at: j, kind: Kind::Tag("("@) })
        } else {
            match declaration(s, j) {
                Err(m) => Err(m),
                Ok((k, d)) => match token(s, k, ")"@) {
                    Ok(e) => Ok((e, d)),
                    Err(m) => Err(m),
                },
            }
        },
    }
}

/// `fun_decl := "fn" IDENT* block`: the parameters and the body.
pub open spec fn fun_decl(s: Seq<char>, i: int) -> Parsed<(Seq<Seq<char>>, Ast)>
    decreases s.len() - i, 21int,
{
    match word(s, i, "fn"@) {
        Err(m) => Err(m),
        Ok(j) => if !ahead(s, i, j) {
            Err(Miss { at: j, kind: Kind::Tag("fn"@) })
        } else {
            let (k, ps) = params(s, j);
            if !ahead(s, i, k) {
                Err(Miss { at: k, kind: Kind::Tag("{"@) })
            } else {
                match block(s, k) {
                    Ok((e, b)) => Ok((e, (ps, b))),
                    Err(m) => Err(m),
                }
            }
        },
    }
}

/// `IDENT*`: a function's parameters.
pub open spec fn params(s: Seq<char>, i: int) -> (int, Seq<Seq<char>>)
    decreases s.len() - i,
{
    match name(s, i) {
        Ok((j, n)) => if ahead(s, i, j) {
            let (k, rest) = params(s, j);
            (k, seq![n] + rest)
        } else {
            (i, Seq::empty())
        },
        Err(_) => (i, Seq::empty()),
    }
}

/// `block := "{" declaration* "}"`
pub open spec fn block(s: Seq<char>, i: int) -> Parsed<Ast>
    decreases s.len() - i, 19int,
{
    match token(s, i, "{"@) {
        Err(m) => Err(m),
        Ok(j) => if !ahead(s, i, j) {
            Err(Miss { at: j, kind: Kind::Tag("{"@) })
        } else {
            let (k, items, _) = declarations(s, j);
            match token(s, k, "}"@) {
                Ok(e) => Ok((e, Ast::Block(items))),
                Err(m) => Err(m),
            }
        },
    }
}

/// A whole program: the declarations from the start, which must reach the end
/// of the text but for whitespace; else the failure that stopped them.
pub open spec fn program_of(s: Seq<char>) -> Result<Seq<Ast>, Miss> {
    let (k, items, m) = declarations(s, 0);
    if skip_ws(s, k) == s.len() {
        Ok(items)
    } else {
        Err(m)
    }
}

} // verus!
