use vstd::prelude::*;
use crate::text::push_char;

verus! {

/// A runtime value. A float keeps the decimal text it was written with.
#[derive(Debug, PartialEq)]
pub enum Value {
    Float(String),
    Int(i128),
    String(String),
    Bool(bool),
    NONE,
}

/// The mathematical model of a value.
pub enum Val {
    Float(Seq<char>),
    Int(int),
    Str(Seq<char>),
    Bool(bool),
    Unit,
}

impl View for Value {
    type V = Val;

    open spec fn view(&self) -> Val {
        match self {
            Value::Float(t) => Val::Float(t@),
            Value::Int(i) => Val::Int(*i as int),
            Value::String(t) => Val::Str(t@),
            Value::Bool(b) => Val::Bool(*b),
            Value::NONE => Val::Unit,
        }
    }
}

/// The name of a value's type, as error messages give it.
pub open spec fn kind_name(v: Val) -> Seq<char> {
    match v {
        Val::Float(_) => "Float"@,
        Val::Int(_) => "Int"@,
        Val::Str(_) => "String"@,
        Val::Bool(_) => "Bool"@,
        Val::Unit => "NONE"@,
    }
}

pub open spec fn digit_char(d: int) -> char {
    if d == 0 {
        '0'
    } else if d == 1 {
        '1'
    } else if d == 2 {
        '2'
    } else if d == 3 {
        '3'
    } else if d == 4 {
        '4'
    } else if d == 5 {
        '5'
    } else if d == 6 {
        '6'
    } else if d == 7 {
        '7'
    } else if d == 8 {
        '8'
    } else {
        '9'
    }
}

/// The decimal digits of `m`, most significant first.
pub open spec fn digits(m: nat) -> Seq<char>
    decreases m,
{
    if m < 10 {
        seq![digit_char(m as int)]
    } else {
        digits(m / 10).push(digit_char((m % 10) as int))
    }
}

/// An integer in decimal, with a leading `-` when negative.
pub open spec fn int_text(i: int) -> Seq<char> {
    if i < 0 {
        seq!['-'] + digits((-i) as nat)
    } else {
        digits(i as nat)
    }
}

/// How a value is displayed.
pub open spec fn shown(v: Val) -> Seq<char> {
    match v {
        Val::Float(t) => t,
        Val::Int(i) => int_text(i),
        Val::Str(t) => t,
        Val::Bool(b) => if b {
            "true"@
        } else {
            "false"@
        },
        Val::Unit => "NONE"@,
    }
}

fn digit_of(d: u128) -> (c: char)
    requires
        d < 10,
    ensures
        c == digit_char(d as int),
{
    if d == 0 {
        '0'
    } else if d == 1 {
        '1'
    } else if d == 2 {
        '2'
    } else if d == 3 {
        '3'
    } else if d == 4 {
        '4'
    } else if d == 5 {
        '5'
    } else if d == 6 {
        '6'
    } else if d == 7 {
        '7'
    } else if d == 8 {
        '8'
    } else {
        '9'
    }
}

fn push_digits(m: u128, out: &mut String)
    ensures
        final(out)@ == old(out)@ + digits(m as nat),
    decreases m,
{
    if m >= 10 {
        push_digits(m / 10, out);
    }
    push_char(out, digit_of(m % 10));
    proof {
        if m >= 10 {
            assert(final(out)@ =~= old(out)@ + digits(m as nat));
        } else {
            assert(final(out)@ =~= old(out)@ + digits(m as nat));
        }
    }
}

/// The decimal text of `i`.
pub fn int_to_text(i: i128) -> (r: String)
    ensures
        r@ == int_text(i as int),
{
    let mut out = String::new();
    if i < 0 {
        push_char(&mut out, '-');
        let m: u128 = ((-(i + 1)) as u128) + 1;
        push_digits(m, &mut out);
    } else {
        push_digits(i as u128, &mut out);
    }
    out
}

impl Value {
    /// The name of the value's type.
    pub fn value_type(&self) -> (r: String)
        ensures
            r@ == kind_name(self@),
    {
        match self {
            Value::Float(_) => String::from_str("Float"),
            Value::Int(_) => String::from_str("Int"),
            Value::String(_) => String::from_str("String"),
            Value::Bool(_) => String::from_str("Bool"),
            Value::NONE => String::from_str("NONE"),
        }
    }

    /// The value as it is displayed.
    pub fn to_text(&self) -> (r: String)
        ensures
            r@ == shown(self@),
    {
        match self {
            Value::Float(t) => t.clone(),
            Value::Int(i) => int_to_text(*i),
            Value::String(t) => t.clone(),
            Value::Bool(b) => if *b {
                String::from_str("true")
            } else {
                String::from_str("false")
            },
            Value::NONE => String::from_str("NONE"),
        }
    }
}

} // verus!
