//! A parser combinator kernel: recognisers of a prefix of their input, and
//! ways to combine them. Each parser states its outcome on a text as a spec
//! function; on failure it hands its input back unchanged, so that another
//! alternative can be tried on it.
use vstd::prelude::*;
use crate::chars::{alphabetic, whitespace, digit, is_alphabetic, is_ident_char, is_whitespace};
use crate::error::{Error, ErrorKind};
use crate::parser::kind_view;
use crate::syntax::{Kind, ident_end, numeral_end, lit_at, skip_ws};
use crate::text::push_char;

verus! {

/// The text still to parse, and the last failure recorded on the way.
pub type InputStream = (String, Option<Error>);

/// A parser's result: what remains with the value, or, on failure, the input
/// handed back with the failure recorded.
pub type ParseResult<Output> = Result<(InputStream, Output), InputStream>;

/// Whether `r` is what a parser whose outcome on `s` is `o` returns: on
/// success the rest of the input after the consumed characters, no failure
/// recorded, and the value; on failure the input unchanged.
pub open spec fn parsed_as<O: DeepView>(
    o: Option<(nat, O::V)>,
    s: Seq<char>,
    r: ParseResult<O>,
) -> bool {
    match r {
        Ok(((rest, e), v)) => match o {
            Some((n, w)) => n <= s.len() && rest@ == s.subrange(n as int, s.len() as int)
                && e is None && w == v.deep_view(),
            None => false,
        },
        Err((rest, _)) => o is None && rest@ == s,
    }
}

/// The model of a recorded failure: the text where it happened and its kind.
pub type Record = Option<(Seq<char>, Kind)>;

pub open spec fn record_view(e: Option<Error>) -> Record {
    match e {
        Some(x) => Some((x.input@, kind_view(x.code))),
        None => None,
    }
}

/// A recogniser of a prefix of its input.
pub trait Parser {
    /// What the parser yields.
    type Output: DeepView;

    /// On text `s`: the number of characters recognised and the value, or
    /// `None` where the parser fails.
    spec fn outcome(&self, s: Seq<char>) -> Option<(nat, <Self::Output as DeepView>::V)>;

    /// Where the parser fails on `s`: the failure it records, `prior` being
    /// the one recorded before it ran.
    spec fn failure(&self, s: Seq<char>, prior: Record) -> Record;

    fn parse(&self, input: InputStream) -> (r: ParseResult<Self::Output>)
        ensures
            parsed_as(self.outcome(input.0@), input.0@, r),
            r matches Err((_, e)) ==> record_view(e) == self.failure(
                input.0@,
                record_view(input.1),
            ),
    ;
}

/// A test on the values a parser produces.
pub trait Predicate<A: DeepView> {
    spec fn holds(&self, a: A::V) -> bool;

    fn test(&self, a: &A) -> (r: bool)
        ensures
            r == self.holds(a.deep_view()),
    ;
}

/// A change of a parser's values into others.
pub trait Transform<A: DeepView> {
    type Out: DeepView;

    spec fn result(&self, a: A::V) -> <Self::Out as DeepView>::V;

    fn apply(&self, a: A) -> (r: Self::Out)
        ensures
            r.deep_view() == self.result(a.deep_view()),
    ;
}

/// Characters collected into a string.
pub struct Collect;

impl Transform<Vec<char>> for Collect {
    type Out = String;

    open spec fn result(&self, a: Seq<char>) -> Seq<char> {
        a
    }

    fn apply(&self, a: Vec<char>) -> (r: String) {
        let mut out = String::new();
        let mut i: usize = 0;
        while i < a.len()
            invariant
                i <= a@.len(),
                out@ == a@.subrange(0, i as int),
            decreases a@.len() - i,
        {
            push_char(&mut out, a[i]);
            i = i + 1;
            assert(out@ =~= a@.subrange(0, i as int));
        }
        assert(a@.subrange(0, a@.len() as int) =~= a@);
        assert(a.deep_view() =~= a@);
        out
    }
}

/// The text of `s` from character `n` on.
fn rest_of(s: &String, n: usize) -> (r: String)
    requires
        n <= s@.len(),
    ensures
        r@ == s@.subrange(n as int, s@.len() as int),
{
    let t = s.as_str();
    String::from_str(t.substring_char(n, t.unicode_len()))
}

/// The text of `s` from character `a` up to `b`.
fn part_of(s: &String, a: usize, b: usize) -> (r: String)
    requires
        a <= b <= s@.len(),
    ensures
        r@ == s@.subrange(a as int, b as int),
{
    String::from_str(s.as_str().substring_char(a, b))
}

fn copy_stream(input: &InputStream) -> (r: InputStream)
    ensures
        r.0@ == input.0@,
{
    (input.0.clone(), input.1.clone())
}

fn copy_kind(k: &ErrorKind) -> (r: ErrorKind)
    ensures
        kind_view(r) == kind_view(*k),
{
    match k {
        ErrorKind::Tag(t) => ErrorKind::Tag(t.clone()),
        ErrorKind::Ident => ErrorKind::Ident,
        ErrorKind::Float => ErrorKind::Float,
        ErrorKind::Int => ErrorKind::Int,
        ErrorKind::AnyChar => ErrorKind::AnyChar,
        ErrorKind::Comparison => ErrorKind::Comparison,
    }
}

fn copy_record(e: &Option<Error>) -> (r: Option<Error>)
    ensures
        record_view(r) == record_view(*e),
{
    match e {
        Some(x) => Some(Error::new(x.input.clone(), copy_kind(&x.code))),
        None => None,
    }
}

/// The input handed back unchanged, with the failure recorded before.
fn keep_input(input: &InputStream) -> (r: InputStream)
    ensures
        r.0@ == input.0@,
        record_view(r.1) == record_view(input.1),
{
    (input.0.clone(), copy_record(&input.1))
}

fn failed<O>(input: InputStream, kind: ErrorKind) -> (r: ParseResult<O>)
    ensures
        r matches Err((rest, Some(e))) && rest@ == input.0@ && e.input@ == input.0@ && e.code
            == kind,
{
    let text = input.0;
    let copy = text.clone();
    Err((text, Some(Error::new(copy, kind))))
}

/// Recognises the literal text `expected`, yielding `()`.
pub struct Tag {
    pub expected: String,
}

/// A parser of the literal `expected`.
pub fn tag(expected: &str) -> (r: Tag)
    ensures
        r.expected@ == expected@,
{
    Tag { expected: String::from_str(expected) }
}

impl Parser for Tag {
    type Output = ();

    open spec fn outcome(&self, s: Seq<char>) -> Option<(nat, ())> {
        if lit_at(s, 0, self.expected@) {
            Some((self.expected@.len(), ()))
        } else {
            None
        }
    }

    open spec fn failure(&self, s: Seq<char>, prior: Record) -> Record {
        Some((s, Kind::Tag(self.expected@)))
    }

    fn parse(&self, input: InputStream) -> (r: ParseResult<()>) {
        let s = input.0.as_str();
        let t = self.expected.as_str();
        let n = t.unicode_len();
        let len = s.unicode_len();
        if n > len {
            let kind = ErrorKind::Tag(self.expected.clone());
            return failed(input, kind);
        }
        let mut k: usize = 0;
        while k < n
            invariant
                n == self.expected@.len(),
                len == input.0@.len(),
                s@ == input.0@,
                t@ == self.expected@,
                n <= len,
                k <= n,
                forall|m: int| 0 <= m < k ==> input.0@[m] == self.expected@[m],
            decreases n - k,
        {
            if s.get_char(k) != t.get_char(k) {
                assert(input.0@.subrange(0, n as int)[k as int] != self.expected@[k as int]);
                let kind = ErrorKind::Tag(self.expected.clone());
                return failed(input, kind);
            }
            k = k + 1;
        }
        assert(input.0@.subrange(0, n as int) =~= self.expected@);
        Ok(((rest_of(&input.0, n), None), ()))
    }
}

/// Recognises an identifier: an alphabetic character, then alphanumerics and `_`.
pub struct Ident;

/// Recognises a numeral: digits with at most one `.` among them, as text.
pub struct Number;

/// Recognises any one character.
pub struct AnyChar;

/// The identifier at the start of `s`.
pub open spec fn identifier_outcome(s: Seq<char>) -> Option<(nat, Seq<char>)> {
    if s.len() > 0 && alphabetic(s[0]) {
        let e = ident_end(s, 1);
        Some((e as nat, s.subrange(0, e)))
    } else {
        None
    }
}

/// The numeral at the start of `s`.
pub open spec fn number_outcome(s: Seq<char>) -> Option<(nat, Seq<char>)> {
    if s.len() > 0 && digit(s[0]) {
        let e = numeral_end(s, 1, false);
        Some((e as nat, s.subrange(0, e)))
    } else {
        None
    }
}

/// Recognises an identifier.
pub fn identifier(input: InputStream) -> (r: ParseResult<String>)
    ensures
        parsed_as(identifier_outcome(input.0@), input.0@, r),
        r matches Err((_, Some(e))) ==> e.input@ == input.0@ && e.code == ErrorKind::Ident,
        r is Err ==> r matches Err((_, Some(_))),
{
    let s = input.0.as_str();
    let len = s.unicode_len();
    if len == 0 || !is_alphabetic(s.get_char(0)) {
        return failed(input, ErrorKind::Ident);
    }
    let mut e: usize = 1;
    while e < len && is_ident_char(s.get_char(e))
        invariant
            1 <= e <= len == input.0@.len(),
            s@ == input.0@,
            ident_end(input.0@, 1) == ident_end(input.0@, e as int),
        decreases len - e,
    {
        e = e + 1;
    }
    let word = part_of(&input.0, 0, e);
    Ok(((rest_of(&input.0, e), None), word))
}

/// Recognises a numeral, as its text.
pub fn number(input: InputStream) -> (r: ParseResult<String>)
    ensures
        parsed_as(number_outcome(input.0@), input.0@, r),
        r matches Err((_, Some(e))) ==> e.input@ == input.0@ && e.code == ErrorKind::Float,
        r is Err ==> r matches Err((_, Some(_))),
{
    let s = input.0.as_str();
    let len = s.unicode_len();
    if len == 0 || !('0' <= s.get_char(0) && s.get_char(0) <= '9') {
        return failed(input, ErrorKind::Float);
    }
    let mut e: usize = 1;
    let mut dot = false;
    while e < len && (('0' <= s.get_char(e) && s.get_char(e) <= '9') || (s.get_char(e) == '.'
        && !dot))
        invariant
            1 <= e <= len == input.0@.len(),
            s@ == input.0@,
            numeral_end(input.0@, 1, false) == numeral_end(input.0@, e as int, dot),
        decreases len - e,
    {
        if s.get_char(e) == '.' {
            dot = true;
        }
        e = e + 1;
    }
    let text = part_of(&input.0, 0, e);
    Ok(((rest_of(&input.0, e), None), text))
}

/// Recognises any one character.
pub fn any_char(input: InputStream) -> (r: ParseResult<char>)
    ensures
        parsed_as(
            if input.0@.len() > 0 {
                Some((1nat, input.0@[0]))
            } else {
                None
            },
            input.0@,
            r,
        ),
        r matches Err((_, Some(e))) ==> e.input@ == input.0@ && e.code == ErrorKind::AnyChar,
        r is Err ==> r matches Err((_, Some(_))),
{
    let s = input.0.as_str();
    if s.unicode_len() == 0 {
        return failed(input, ErrorKind::AnyChar);
    }
    let c = s.get_char(0);
    Ok(((rest_of(&input.0, 1), None), c))
}

impl Parser for Ident {
    type Output = String;

    open spec fn failure(&self, s: Seq<char>, prior: Record) -> Record {
        Some((s, Kind::Ident))
    }

    open spec fn outcome(&self, s: Seq<char>) -> Option<(nat, Seq<char>)> {
        identifier_outcome(s)
    }

    fn parse(&self, input: InputStream) -> (r: ParseResult<String>) {
        identifier(input)
    }
}

impl Parser for Number {
    type Output = String;

    open spec fn failure(&self, s: Seq<char>, prior: Record) -> Record {
        Some((s, Kind::Float))
    }

    open spec fn outcome(&self, s: Seq<char>) -> Option<(nat, Seq<char>)> {
        number_outcome(s)
    }

    fn parse(&self, input: InputStream) -> (r: ParseResult<String>) {
        number(input)
    }
}

impl Parser for AnyChar {
    type Output = char;

    open spec fn failure(&self, s: Seq<char>, prior: Record) -> Record {
        Some((s, Kind::AnyChar))
    }

    open spec fn outcome(&self, s: Seq<char>) -> Option<(nat, char)> {
        if s.len() > 0 {
            Some((1nat, s[0]))
        } else {
            None
        }
    }

    fn parse(&self, input: InputStream) -> (r: ParseResult<char>) {
        any_char(input)
    }
}

/// The given character.
pub struct CharIs(pub char);

/// Any character but the given one.
pub struct CharIsNot(pub char);

/// A whitespace character.
pub struct Whitespace;

impl Predicate<char> for CharIs {
    open spec fn holds(&self, a: char) -> bool {
        a == self.0
    }

    fn test(&self, a: &char) -> (r: bool) {
        *a == self.0
    }
}

impl Predicate<char> for CharIsNot {
    open spec fn holds(&self, a: char) -> bool {
        a != self.0
    }

    fn test(&self, a: &char) -> (r: bool) {
        *a != self.0
    }
}

impl Predicate<char> for Whitespace {
    open spec fn holds(&self, a: char) -> bool {
        whitespace(a)
    }

    fn test(&self, a: &char) -> (r: bool) {
        is_whitespace(*a)
    }
}

/// `a` then `b`; both values.
pub struct Pair<P1, P2> {
    pub first: P1,
    pub second: P2,
}

/// `a`, or else `b` on the same input.
pub struct Either<P1, P2> {
    pub first: P1,
    pub second: P2,
}

/// `a` then `b`; the value of `a`.
pub struct Left<P1, P2> {
    pub first: P1,
    pub second: P2,
}

/// `a` then `b`; the value of `b`.
pub struct Right<P1, P2> {
    pub first: P1,
    pub second: P2,
}

/// `p` if its value passes the test.
pub struct Pred<P, Q> {
    pub parser: P,
    pub predicate: Q,
}

/// `p` as many times as it applies and makes progress, possibly none.
pub struct ZeroOrMore<P> {
    pub parser: P,
}

/// `p` once, then as many more times as it applies and makes progress.
pub struct OneOrMore<P> {
    pub parser: P,
}

/// `p` between optional whitespace.
pub struct Trim<P> {
    pub parser: P,
}

pub fn pair<P1, P2>(first: P1, second: P2) -> (r: Pair<P1, P2>)
    ensures
        r.first == first,
        r.second == second,
{
    Pair { first, second }
}

pub fn either<P1, P2>(first: P1, second: P2) -> (r: Either<P1, P2>)
    ensures
        r.first == first,
        r.second == second,
{
    Either { first, second }
}

pub fn left<P1, P2>(first: P1, second: P2) -> (r: Left<P1, P2>)
    ensures
        r.first == first,
        r.second == second,
{
    Left { first, second }
}

pub fn right<P1, P2>(first: P1, second: P2) -> (r: Right<P1, P2>)
    ensures
        r.first == first,
        r.second == second,
{
    Right { first, second }
}

pub fn pred<P, Q>(parser: P, predicate: Q) -> (r: Pred<P, Q>)
    ensures
        r.parser == parser,
        r.predicate == predicate,
{
    Pred { parser, predicate }
}

pub fn zero_or_more<P>(parser: P) -> (r: ZeroOrMore<P>)
    ensures
        r.parser == parser,
{
    ZeroOrMore { parser }
}

pub fn one_or_more<P>(parser: P) -> (r: OneOrMore<P>)
    ensures
        r.parser == parser,
{
    OneOrMore { parser }
}

pub fn trim<P>(parser: P) -> (r: Trim<P>)
    ensures
        r.parser == parser,
{
    Trim { parser }
}

/// One whitespace character.
pub fn whitespace_char() -> (r: Pred<AnyChar, Whitespace>)
    ensures
        r == (Pred { parser: AnyChar, predicate: Whitespace }),
{
    Pred { parser: AnyChar, predicate: Whitespace }
}

/// Any run of whitespace, possibly empty.
pub fn space0() -> (r: ZeroOrMore<Pred<AnyChar, Whitespace>>)
    ensures
        r == (ZeroOrMore { parser: Pred { parser: AnyChar, predicate: Whitespace } }),
{
    ZeroOrMore { parser: whitespace_char() }
}

/// A run of at least one whitespace character.
pub fn space1() -> (r: OneOrMore<Pred<AnyChar, Whitespace>>)
    ensures
        r == (OneOrMore { parser: Pred { parser: AnyChar, predicate: Whitespace } }),
{
    OneOrMore { parser: whitespace_char() }
}

impl<P1: Parser, P2: Parser> Parser for Pair<P1, P2> {
    type Output = (P1::Output, P2::Output);

    open spec fn failure(&self, s: Seq<char>, prior: Record) -> Record {
        match self.first.outcome(s) {
            Some((n, _)) => if n <= s.len() {
                self.second.failure(s.subrange(n as int, s.len() as int), None)
            } else {
                prior
            },
            None => self.first.failure(s, prior),
        }
    }

    open spec fn outcome(&self, s: Seq<char>) -> Option<
        (nat, (<P1::Output as DeepView>::V, <P2::Output as DeepView>::V)),
    > {
        match self.first.outcome(s) {
            Some((n, x)) => if n <= s.len() {
                match self.second.outcome(s.subrange(n as int, s.len() as int)) {
                    Some((m, y)) => Some(((n + m) as nat, (x, y))),
                    None => None,
                }
            } else {
                None
            },
            None => None,
        }
    }

    fn parse(&self, input: InputStream) -> (r: ParseResult<(P1::Output, P2::Output)>) {
        let keep = input.0.clone();
        let ghost s0 = input.0@;
        match self.first.parse(input) {
            Err((_, e)) => Err((keep, e)),
            Ok((next, x)) => {
                let ghost mid = next.0@;
                match self.second.parse(next) {
                    Err((_, e)) => Err((keep, e)),
                    Ok((last, y)) => {
                        proof {
                            let (n, _) = self.first.outcome(s0).unwrap();
                            let (m, _) = self.second.outcome(mid).unwrap();
                            assert(last.0@ =~= s0.subrange((n + m) as int, s0.len() as int));
                        }
                        Ok((last, (x, y)))
                    },
                }
            },
        }
    }
}

impl<P1: Parser, P2: Parser<Output = P1::Output>> Parser for Either<P1, P2> {
    type Output = P1::Output;

    open spec fn outcome(&self, s: Seq<char>) -> Option<(nat, <P1::Output as DeepView>::V)> {
        match self.first.outcome(s) {
            Some(r) => Some(r),
            None => self.second.outcome(s),
        }
    }

    open spec fn failure(&self, s: Seq<char>, prior: Record) -> Record {
        match self.first.outcome(s) {
            Some(_) => prior,
            None => self.second.failure(s, prior),
        }
    }

    fn parse(&self, input: InputStream) -> (r: ParseResult<Self::Output>) {
        let keep = keep_input(&input);
        match self.first.parse(input) {
            Ok(r) => Ok(r),
            Err(_) => self.second.parse(keep),
        }
    }
}

impl<P1: Parser, P2: Parser> Parser for Left<P1, P2> {
    type Output = P1::Output;

    open spec fn failure(&self, s: Seq<char>, prior: Record) -> Record {
        match self.first.outcome(s) {
            Some((n, _)) => if n <= s.len() {
                self.second.failure(s.subrange(n as int, s.len() as int), None)
            } else {
                prior
            },
            None => self.first.failure(s, prior),
        }
    }

    open spec fn outcome(&self, s: Seq<char>) -> Option<(nat, <P1::Output as DeepView>::V)> {
        match (Pair { first: self.first, second: self.second }).outcome(s) {
            Some((n, (x, _))) => Some((n, x)),
            None => None,
        }
    }

    fn parse(&self, input: InputStream) -> (r: ParseResult<Self::Output>) {
        let keep = input.0.clone();
        let ghost s0 = input.0@;
        match self.first.parse(input) {
            Err((_, e)) => Err((keep, e)),
            Ok((next, x)) => {
                let ghost mid = next.0@;
                match self.second.parse(next) {
                    Err((_, e)) => Err((keep, e)),
                    Ok((last, _)) => {
                        proof {
                            let (n, _) = self.first.outcome(s0).unwrap();
                            let (m, _) = self.second.outcome(mid).unwrap();
                            assert(last.0@ =~= s0.subrange((n + m) as int, s0.len() as int));
                        }
                        Ok((last, x))
                    },
                }
            },
        }
    }
}

impl<P1: Parser, P2: Parser> Parser for Right<P1, P2> {
    type Output = P2::Output;

    open spec fn failure(&self, s: Seq<char>, prior: Record) -> Record {
        match self.first.outcome(s) {
            Some((n, _)) => if n <= s.len() {
                self.second.failure(s.subrange(n as int, s.len() as int), None)
            } else {
                prior
            },
            None => self.first.failure(s, prior),
        }
    }

    open spec fn outcome(&self, s: Seq<char>) -> Option<(nat, <P2::Output as DeepView>::V)> {
        match (Pair { first: self.first, second: self.second }).outcome(s) {
            Some((n, (_, y))) => Some((n, y)),
            None => None,
        }
    }

    fn parse(&self, input: InputStream) -> (r: ParseResult<Self::Output>) {
        let keep = input.0.clone();
        let ghost s0 = input.0@;
        match self.first.parse(input) {
            Err((_, e)) => Err((keep, e)),
            Ok((next, _)) => {
                let ghost mid = next.0@;
                match self.second.parse(next) {
                    Err((_, e)) => Err((keep, e)),
                    Ok((last, y)) => {
                        proof {
                            let (n, _) = self.first.outcome(s0).unwrap();
                            let (m, _) = self.second.outcome(mid).unwrap();
                            assert(last.0@ =~= s0.subrange((n + m) as int, s0.len() as int));
                        }
                        Ok((last, y))
                    },
                }
            },
        }
    }
}

impl<P: Parser, Q: Predicate<P::Output>> Parser for Pred<P, Q> {
    type Output = P::Output;

    open spec fn outcome(&self, s: Seq<char>) -> Option<(nat, <P::Output as DeepView>::V)> {
        match self.parser.outcome(s) {
            Some((n, v)) => if self.predicate.holds(v) {
                Some((n, v))
            } else {
                None
            },
            None => None,
        }
    }

    open spec fn failure(&self, s: Seq<char>, prior: Record) -> Record {
        prior
    }

    fn parse(&self, input: InputStream) -> (r: ParseResult<Self::Output>) {
        let keep = keep_input(&input);
        match self.parser.parse(input) {
            Ok((next, v)) => if self.predicate.test(&v) {
                Ok((next, v))
            } else {
                Err(keep)
            },
            Err(_) => Err(keep),
        }
    }
}

/// What repeating `p` from the start of `s` recognises: the characters
/// consumed and the values, stopping where `p` fails or makes no progress.
pub open spec fn many<P: Parser>(p: P, s: Seq<char>) -> (nat, Seq<<P::Output as DeepView>::V>)
    decreases s.len(),
{
    match p.outcome(s) {
        Some((n, v)) => if 0 < n <= s.len() {
            let (m, vs) = many(p, s.subrange(n as int, s.len() as int));
            ((n + m) as nat, seq![v] + vs)
        } else {
            (0, Seq::empty())
        },
        None => (0, Seq::empty()),
    }
}

pub proof fn lemma_many_bounds<P: Parser>(p: P, s: Seq<char>)
    ensures
        many(p, s).0 <= s.len(),
    decreases s.len(),
{
    match p.outcome(s) {
        Some((n, v)) => if 0 < n <= s.len() {
            lemma_many_bounds(p, s.subrange(n as int, s.len() as int));
        },
        None => {},
    }
}

proof fn lemma_deep_push<A: DeepView>(v: Seq<A>, a: A)
    ensures
        v.push(a).map_values(|x: A| x.deep_view()) == v.map_values(|x: A| x.deep_view()).push(
            a.deep_view(),
        ),
{
    assert(v.push(a).map_values(|x: A| x.deep_view()) =~= v.map_values(|x: A| x.deep_view()).push(
        a.deep_view(),
    ));
}

/// Applies `p` to `input` as many times as it succeeds and makes progress;
/// the values collected go after those in `items`.
fn repeat<P: Parser>(p: &P, input: InputStream, start: Vec<P::Output>) -> (r: (
    InputStream,
    Vec<P::Output>,
))
    ensures
        ({
            let (m, vs) = many(*p, input.0@);
            &&& r.0.0@ == input.0@.subrange(m as int, input.0@.len() as int)
            &&& r.1.deep_view() == start.deep_view() + vs
        }),
{
    let mut cur = input;
    let mut items = start;
    let ghost s0 = cur.0@;
    let ghost items0 = items.deep_view();
    proof {
        assert(s0.subrange(0, s0.len() as int) =~= s0);
        assert(items0 + Seq::<<P::Output as DeepView>::V>::empty() =~= items0);
    }
    loop
        invariant
            s0 == input.0@,
            items0 == start.deep_view(),
            s0.len() >= cur.0@.len(),
            cur.0@ == s0.subrange(s0.len() - cur.0@.len(), s0.len() as int),
            ({
                let (m0, vs0) = many(*p, s0);
                let (m, vs) = many(*p, cur.0@);
                &&& m0 == (s0.len() - cur.0@.len()) + m
                &&& items0 + vs0 == items.deep_view() + vs
            }),
        decreases cur.0@.len(),
    {
        let keep = copy_stream(&cur);
        let ghost s = cur.0@;
        let len = cur.0.as_str().unicode_len();
        match p.parse(cur) {
            Ok((next, v)) => {
                let nlen = next.0.as_str().unicode_len();
                if nlen < len {
                    proof {
                        let (n, w) = p.outcome(s).unwrap();
                        let (m, vs) = many(*p, next.0@);
                        assert(next.0@ =~= s0.subrange(s0.len() - next.0@.len(), s0.len() as int));
                        lemma_deep_push(items@, v);
                        assert(items.deep_view().push(v.deep_view()) + vs =~= items.deep_view() + (
                        seq![w] + vs));
                    }
                    items.push(v);
                    cur = next;
                } else {
                    proof {
                        assert(items.deep_view() + Seq::<<P::Output as DeepView>::V>::empty() =~= items.deep_view());
                    }
                    return (keep, items);
                }
            },
            Err(_) => {
                proof {
                    assert(items.deep_view() + Seq::<<P::Output as DeepView>::V>::empty() =~= items.deep_view());
                }
                return (keep, items);
            },
        }
    }
}

impl<P: Parser> Parser for ZeroOrMore<P> {
    type Output = Vec<P::Output>;

    open spec fn outcome(&self, s: Seq<char>) -> Option<(nat, Seq<<P::Output as DeepView>::V>)> {
        Some(many(self.parser, s))
    }

    open spec fn failure(&self, s: Seq<char>, prior: Record) -> Record {
        prior
    }

    fn parse(&self, input: InputStream) -> (r: ParseResult<Self::Output>) {
        proof {
            lemma_many_bounds(self.parser, input.0@);
        }
        let ghost s = input.0@;
        let (rest, items) = repeat(&self.parser, input, Vec::new());
        
        assert(Seq::<<P::Output as DeepView>::V>::empty() + many(self.parser, s).1 =~= many(self.parser, s).1);
        Ok(((rest.0, None), items))
    }
}

impl<P: Parser> Parser for OneOrMore<P> {
    type Output = Vec<P::Output>;

    open spec fn outcome(&self, s: Seq<char>) -> Option<(nat, Seq<<P::Output as DeepView>::V>)> {
        match self.parser.outcome(s) {
            Some((n, v)) => if 0 < n <= s.len() {
                let (m, vs) = many(self.parser, s.subrange(n as int, s.len() as int));
                Some(((n + m) as nat, seq![v] + vs))
            } else {
                Some((n, seq![v]))
            },
            None => None,
        }
    }

    open spec fn failure(&self, s: Seq<char>, prior: Record) -> Record {
        prior
    }

    fn parse(&self, input: InputStream) -> (r: ParseResult<Self::Output>) {
        let keep = keep_input(&input);
        let len = input.0.as_str().unicode_len();
        match self.parser.parse(input) {
            Err(_) => Err(keep),
            Ok((next, v)) => {
                let ghost mid = next.0@;
                let nlen = next.0.as_str().unicode_len();
                let ghost vv = v.deep_view();
                let mut items: Vec<P::Output> = Vec::new();
                items.push(v);
                assert(items.deep_view() =~= seq![vv]);
                if nlen < len {
                    proof {
                        lemma_many_bounds(self.parser, mid);
                    }
                    let (rest, all) = repeat(&self.parser, next, items);
                    proof {
                        let (n, _) = self.parser.outcome(keep.0@).unwrap();
                        let (m, _) = many(self.parser, mid);
                        assert(rest.0@ =~= keep.0@.subrange((n + m) as int, keep.0@.len() as int));
                    }
                    Ok(((rest.0, None), all))
                } else {
                    Ok(((next.0, None), items))
                }
            },
        }
    }
}

impl<P: Parser> Parser for Trim<P> {
    type Output = P::Output;

    open spec fn outcome(&self, s: Seq<char>) -> Option<(nat, <P::Output as DeepView>::V)> {
        let a = skip_ws(s, 0);
        if 0 <= a <= s.len() {
            match self.parser.outcome(s.subrange(a, s.len() as int)) {
                Some((n, v)) => if a + n <= s.len() {
                    Some((skip_ws(s, a + n) as nat, v))
                } else {
                    None
                },
                None => None,
            }
        } else {
            None
        }
    }

    open spec fn failure(&self, s: Seq<char>, prior: Record) -> Record {
        let a = skip_ws(s, 0);
        if 0 <= a <= s.len() {
            self.parser.failure(s.subrange(a, s.len() as int), None)
        } else {
            prior
        }
    }

    fn parse(&self, input: InputStream) -> (r: ParseResult<Self::Output>) {
        let keep = copy_stream(&input);
        let s = input.0.as_str();
        let len = s.unicode_len();
        let mut a: usize = 0;
        while a < len && is_whitespace(s.get_char(a))
            invariant
                a <= len == input.0@.len(),
                s@ == input.0@,
                skip_ws(input.0@, 0) == skip_ws(input.0@, a as int),
            decreases len - a,
        {
            a = a + 1;
        }
        let inner = (rest_of(&input.0, a), None);
        match self.parser.parse(inner) {
            Err((_, e)) => Err((keep.0, e)),
            Ok((next, v)) => {
                let t = next.0.as_str();
                let tlen = t.unicode_len();
                let ghost n = (len - a) - tlen;
                let mut b: usize = 0;
                while b < tlen && is_whitespace(t.get_char(b))
                    invariant
                        b <= tlen == next.0@.len(),
                        t@ == next.0@,
                        next.0@ == keep.0@.subrange(len - tlen, len as int),
                        len == keep.0@.len(),
                        tlen <= len - a,
                        skip_ws(keep.0@, (len - tlen) as int) == skip_ws(keep.0@, (len - tlen + b) as int),
                    decreases tlen - b,
                {
                    assert(t@[b as int] == keep.0@[len - tlen + b]);
                    b = b + 1;
                }
                proof {
                    if b < tlen {
                        assert(t@[b as int] == keep.0@[len - tlen + b]);
                    }
                    assert(next.0@.subrange(b as int, tlen as int) =~= keep.0@.subrange(
                        (len - tlen + b) as int,
                        len as int,
                    ));
                }
                Ok(((rest_of(&next.0, b), None), v))
            },
        }
    }
}

/// `p` with its value changed by `transform`.
pub struct Mapped<P, T> {
    pub parser: P,
    pub transform: T,
}

pub fn map<P, T>(parser: P, transform: T) -> (r: Mapped<P, T>)
    ensures
        r.parser == parser,
        r.transform == transform,
{
    Mapped { parser, transform }
}

impl<P: Parser, T: Transform<P::Output>> Parser for Mapped<P, T> {
    type Output = T::Out;

    open spec fn outcome(&self, s: Seq<char>) -> Option<
        (nat, <T::Out as DeepView>::V),
    > {
        match self.parser.outcome(s) {
            Some((n, v)) => Some((n, self.transform.result(v))),
            None => None,
        }
    }

    open spec fn failure(&self, s: Seq<char>, prior: Record) -> Record {
        self.parser.failure(s, prior)
    }

    fn parse(&self, input: InputStream) -> (r: ParseResult<Self::Output>) {
        match self.parser.parse(input) {
            Ok((rest, v)) => Ok((rest, self.transform.apply(v))),
            Err(e) => Err(e),
        }
    }
}

/// What comes after a parser's value: the parser to run next, chosen by
/// the value.
pub trait Continue<A: DeepView> {
    type Next: Parser;

    /// The outcome on `s` of the parser chosen for the value `a`.
    spec fn next_outcome(&self, a: A::V, s: Seq<char>) -> Option<
        (nat, <<Self::Next as Parser>::Output as DeepView>::V),
    >;

    /// The failure on `s` of the parser chosen for the value `a`.
    spec fn next_failure(&self, a: A::V, s: Seq<char>, prior: Record) -> Record;

    fn next(&self, a: A) -> (r: Self::Next)
        ensures
            forall|s: Seq<char>| #[trigger] r.outcome(s) == self.next_outcome(a.deep_view(), s),
            forall|s: Seq<char>, p: Record| #[trigger]
                r.failure(s, p) == self.next_failure(a.deep_view(), s, p),
    ;
}

/// The text just recognised, once more.
pub struct Again;

impl Continue<String> for Again {
    type Next = Tag;

    open spec fn next_outcome(&self, a: Seq<char>, s: Seq<char>) -> Option<(nat, ())> {
        if lit_at(s, 0, a) {
            Some((a.len(), ()))
        } else {
            None
        }
    }

    open spec fn next_failure(&self, a: Seq<char>, s: Seq<char>, prior: Record) -> Record {
        Some((s, Kind::Tag(a)))
    }

    fn next(&self, a: String) -> (r: Tag) {
        Tag { expected: a }
    }
}

/// `p`, then the parser that its value chooses.
pub struct AndThen<P, F> {
    pub parser: P,
    pub next: F,
}

pub fn and_then<P, F>(parser: P, next: F) -> (r: AndThen<P, F>)
    ensures
        r.parser == parser,
        r.next == next,
{
    AndThen { parser, next }
}

impl<P: Parser, F: Continue<P::Output>> Parser for AndThen<P, F> {
    type Output = <F::Next as Parser>::Output;

    open spec fn outcome(&self, s: Seq<char>) -> Option<
        (nat, <<F::Next as Parser>::Output as DeepView>::V),
    > {
        match self.parser.outcome(s) {
            Some((n, v)) => if n <= s.len() {
                match self.next.next_outcome(v, s.subrange(n as int, s.len() as int)) {
                    Some((m, w)) => Some(((n + m) as nat, w)),
                    None => None,
                }
            } else {
                None
            },
            None => None,
        }
    }

    open spec fn failure(&self, s: Seq<char>, prior: Record) -> Record {
        match self.parser.outcome(s) {
            Some((n, v)) => if n <= s.len() {
                self.next.next_failure(v, s.subrange(n as int, s.len() as int), None)
            } else {
                prior
            },
            None => self.parser.failure(s, prior),
        }
    }

    fn parse(&self, input: InputStream) -> (r: ParseResult<Self::Output>) {
        let keep = input.0.clone();
        let ghost s0 = input.0@;
        match self.parser.parse(input) {
            Err((_, e)) => Err((keep, e)),
            Ok((next, v)) => {
                let ghost mid = next.0@;
                let ghost vv = v.deep_view();
                let q = self.next.next(v);
                match q.parse(next) {
                    Err((_, e)) => Err((keep, e)),
                    Ok((last, w)) => {
                        proof {
                            let (n, _) = self.parser.outcome(s0).unwrap();
                            let (m, _) = q.outcome(mid).unwrap();
                            assert(last.0@ =~= s0.subrange((n + m) as int, s0.len() as int));
                        }
                        Ok((last, w))
                    },
                }
            },
        }
    }
}

/// A change of a recorded failure.
pub trait Relabel {
    spec fn relabeled(&self, e: Record) -> Record;

    fn relabel(&self, e: Option<Error>) -> (r: Option<Error>)
        ensures
            record_view(r) == self.relabeled(record_view(e)),
    ;
}

/// A failure recorded as the failure to find the given kind of thing, at
/// the same place.
pub struct Expecting(pub ErrorKind);

impl Relabel for Expecting {
    open spec fn relabeled(&self, e: Record) -> Record {
        match e {
            Some((at, _)) => Some((at, kind_view(self.0))),
            None => None,
        }
    }

    fn relabel(&self, e: Option<Error>) -> (r: Option<Error>) {
        match e {
            Some(x) => Some(Error::new(x.input, copy_kind(&self.0))),
            None => None,
        }
    }
}

/// `p`, with the failure it records changed by `relabel`.
pub struct MapErr<P, R> {
    pub parser: P,
    pub relabel: R,
}

pub fn map_err<P, R>(parser: P, relabel: R) -> (r: MapErr<P, R>)
    ensures
        r.parser == parser,
        r.relabel == relabel,
{
    MapErr { parser, relabel }
}

impl<P: Parser, R: Relabel> Parser for MapErr<P, R> {
    type Output = P::Output;

    open spec fn outcome(&self, s: Seq<char>) -> Option<(nat, <P::Output as DeepView>::V)> {
        self.parser.outcome(s)
    }

    open spec fn failure(&self, s: Seq<char>, prior: Record) -> Record {
        self.relabel.relabeled(self.parser.failure(s, prior))
    }

    fn parse(&self, input: InputStream) -> (r: ParseResult<Self::Output>) {
        match self.parser.parse(input) {
            Ok(r) => Ok(r),
            Err((rest, e)) => Err((rest, self.relabel.relabel(e))),
        }
    }
}

/// The parser of a double-quoted string: a quote, any characters but a
/// quote, and a closing quote; its value is the characters between.
pub type QuotedString = Mapped<
    Right<Tag, Left<ZeroOrMore<Pred<AnyChar, CharIsNot>>, Tag>>,
    Collect,
>;

/// Recognises a double-quoted string, yielding its content; no escapes.
pub fn quoted_string() -> (r: QuotedString)
    ensures
        r.parser.first.expected@ == "\""@,
        r.parser.second.first.parser.predicate == CharIsNot('"'),
        r.parser.second.second.expected@ == "\""@,
{
    map(
        right(tag("\""), left(zero_or_more(pred(AnyChar, CharIsNot('"'))), tag("\""))),
        Collect,
    )
}

/// Where the first parser fails, `either` gives the second parser's outcome
/// on the very same input.
pub proof fn either_falls_back<P1: Parser, P2: Parser<Output = P1::Output>>(
    a: P1,
    b: P2,
    s: Seq<char>,
)
    requires
        a.outcome(s) is None,
    ensures
        (Either { first: a, second: b }).outcome(s) == b.outcome(s),
{
}

/// `zero_or_more` never fails.
pub proof fn zero_or_more_succeeds<P: Parser>(p: P, s: Seq<char>)
    ensures
        (ZeroOrMore { parser: p }).outcome(s) is Some,
{
}

/// `one_or_more` fails exactly where the first application of its parser fails.
pub proof fn one_or_more_fails_iff_first_fails<P: Parser>(p: P, s: Seq<char>)
    ensures
        (OneOrMore { parser: p }).outcome(s) is None <==> p.outcome(s) is None,
{
}

} // verus!
