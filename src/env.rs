use vstd::prelude::*;
use crate::ast::{Ast, Node, copy_node};
use crate::text::same_text;

verus! {

/// A name bound in an environment.
///
/// `frame` is the scope depth it was bound at, and `prev` the head of the
/// chain of bindings visible before it (see `Environment`). `home` is the
/// environment its declaration is evaluated in, as a chain head and a depth:
/// for a declaration, the one it was made in, itself included; for an
/// argument of a call, the caller's.
#[derive(Debug, PartialEq)]
pub struct Binding {
    pub name: String,
    pub decl: Node,
    pub frame: usize,
    pub prev: usize,
    pub home: (usize, usize),
}

/// The model of a binding.
pub struct Bound {
    pub name: Seq<char>,
    pub decl: Ast,
    pub frame: nat,
    pub prev: nat,
    pub home: (nat, nat),
}

impl View for Binding {
    type V = Bound;

    open spec fn view(&self) -> Bound {
        Bound {
            name: self.name@,
            decl: self.decl@,
            frame: self.frame as nat,
            prev: self.prev as nat,
            home: (self.home.0 as nat, self.home.1 as nat),
        }
    }
}

/// Names in scope. Bindings are kept on a stack; the ones visible are a
/// chain that starts at the binding just below `top` and goes on, from each
/// binding, just below its `prev`. `depth` is the depth of the innermost scope.
#[derive(Debug, PartialEq)]
pub struct Environment {
    pub bindings: Vec<Binding>,
    pub depth: usize,
    pub top: usize,
}

/// The model of an environment.
pub struct Scope {
    pub bindings: Seq<Bound>,
    pub depth: nat,
    pub top: nat,
}

impl View for Environment {
    type V = Scope;

    open spec fn view(&self) -> Scope {
        Scope {
            bindings: self.bindings@.map_values(|b: Binding| b@),
            depth: self.depth as nat,
            top: self.top as nat,
        }
    }
}

/// The first binding of `name` on the chain that starts below `t`.
pub open spec fn find_in(bs: Seq<Bound>, name: Seq<char>, t: int) -> Option<int>
    decreases t,
{
    if t <= 0 || t > bs.len() {
        None
    } else if bs[t - 1].name == name {
        Some(t - 1)
    } else if bs[t - 1].prev < t {
        find_in(bs, name, bs[t - 1].prev as int)
    } else {
        None
    }
}

pub proof fn lemma_find_in_bounds(bs: Seq<Bound>, name: Seq<char>, t: int)
    ensures
        match find_in(bs, name, t) {
            Some(k) => 0 <= k < t && k < bs.len(),
            None => true,
        },
    decreases t,
{
    if 0 < t <= bs.len() && bs[t - 1].name != name && bs[t - 1].prev < t {
        lemma_find_in_bounds(bs, name, bs[t - 1].prev as int);
    }
}

/// Where `name` is bound in `sc`: the first binding of it on the visible chain.
pub open spec fn lookup(sc: Scope, name: Seq<char>) -> Option<int> {
    find_in(sc.bindings, name, sc.top as int)
}

/// Whether the chain that starts below `t` binds `name` at depth `depth`.
pub open spec fn bound_in(bs: Seq<Bound>, name: Seq<char>, depth: nat, t: int) -> bool
    decreases t,
{
    if t <= 0 || t > bs.len() {
        false
    } else if bs[t - 1].name == name && bs[t - 1].frame == depth {
        true
    } else if bs[t - 1].prev < t {
        bound_in(bs, name, depth, bs[t - 1].prev as int)
    } else {
        false
    }
}

/// Whether `name` is bound in the innermost scope of `sc`.
pub open spec fn declared_here(sc: Scope, name: Seq<char>) -> bool {
    bound_in(sc.bindings, name, sc.depth, sc.top as int)
}

/// `sc` with `name` bound to `decl` in its innermost scope; the declaration
/// sees what `sc` sees and itself.
pub open spec fn bind(sc: Scope, name: Seq<char>, decl: Ast) -> Scope {
    Scope {
        bindings: sc.bindings.push(
            Bound {
                name,
                decl,
                frame: sc.depth,
                prev: sc.top,
                home: ((sc.bindings.len() + 1) as nat, sc.depth),
            },
        ),
        depth: sc.depth,
        top: (sc.bindings.len() + 1) as nat,
    }
}

/// Whether `a` holds everything that `b` holds, in the same scope: `b`'s
/// bindings, then perhaps more.
pub open spec fn extends(a: Scope, b: Scope) -> bool {
    &&& a.depth == b.depth
    &&& b.bindings.len() <= a.bindings.len()
    &&& a.bindings.subrange(0, b.bindings.len() as int) == b.bindings
}

pub proof fn lemma_view_push(v: Seq<Binding>, b: Binding)
    ensures
        v.push(b).map_values(|x: Binding| x@) == v.map_values(|x: Binding| x@).push(b@),
{
    assert(v.push(b).map_values(|x: Binding| x@) =~= v.map_values(|x: Binding| x@).push(b@));
}

/// A copy of a binding.
pub fn copy_binding(b: &Binding) -> (r: Binding)
    ensures
        r@ == b@,
{
    Binding {
        name: b.name.clone(),
        decl: copy_node(&b.decl),
        frame: b.frame,
        prev: b.prev,
        home: b.home,
    }
}

/// A copy of `e`.
pub fn copy_env(e: &Environment) -> (r: Environment)
    ensures
        r@ == e@,
{
    let mut out: Vec<Binding> = Vec::new();
    let mut i: usize = 0;
    while i < e.bindings.len()
        invariant
            i <= e.bindings@.len(),
            out@.map_values(|x: Binding| x@) == e@.bindings.subrange(0, i as int),
        decreases e.bindings@.len() - i,
    {
        let b = copy_binding(&e.bindings[i]);
        proof {
            lemma_view_push(out@, b);
            assert(e@.bindings.subrange(0, i + 1) =~= e@.bindings.subrange(0, i as int).push(
                e.bindings@[i as int]@,
            ));
        }
        out.push(b);
        i = i + 1;
    }
    assert(e@.bindings.subrange(0, e.bindings@.len() as int) =~= e@.bindings);
    Environment { bindings: out, depth: e.depth, top: e.top }
}

impl Environment {
    /// An environment with nothing bound.
    pub fn new() -> (r: Environment)
        ensures
            r@ == (Scope { bindings: Seq::empty(), depth: 0, top: 0 }),
    {
        let r = Environment { bindings: Vec::new(), depth: 0, top: 0 };
        assert(r@.bindings =~= Seq::<Bound>::empty());
        r
    }

    /// The index of the binding of `name` that is visible, if any.
    pub fn find(&self, name: &str) -> (r: Option<usize>)
        ensures
            match r {
                Some(k) => lookup(self@, name@) == Some(k as int) && k < self.bindings@.len(),
                None => lookup(self@, name@) is None,
            },
    {
        let len = self.bindings.len();
        let mut t = self.top;
        while 0 < t && t <= len
            invariant
                len == self.bindings@.len(),
                lookup(self@, name@) == find_in(self@.bindings, name@, t as int),
            decreases t,
        {
            let b = &self.bindings[t - 1];
            if same_text(b.name.as_str(), name) {
                return Some(t - 1);
            }
            if b.prev < t {
                t = b.prev;
            } else {
                return None;
            }
        }
        None
    }

    /// The declaration that `name` is bound to, if any.
    pub fn get(&self, name: &str) -> (r: Option<&Node>)
        ensures
            match lookup(self@, name@) {
                Some(k) => r == Some(&self.bindings@[k].decl),
                None => r is None,
            },
    {
        proof {
            lemma_find_in_bounds(self@.bindings, name@, self@.top as int);
        }
        match self.find(name) {
            Some(k) => Some(&self.bindings[k].decl),
            None => None,
        }
    }

    /// Whether `name` is bound.
    pub fn contains(&self, name: &str) -> (r: bool)
        ensures
            r == lookup(self@, name@) is Some,
    {
        self.find(name).is_some()
    }

    /// Whether `name` is bound in the innermost scope.
    pub fn declared_here(&self, name: &str) -> (r: bool)
        ensures
            r == declared_here(self@, name@),
    {
        let len = self.bindings.len();
        let mut t = self.top;
        while 0 < t && t <= len
            invariant
                len == self.bindings@.len(),
                declared_here(self@, name@) == bound_in(
                    self@.bindings,
                    name@,
                    self.depth as nat,
                    t as int,
                ),
            decreases t,
        {
            let b = &self.bindings[t - 1];
            if b.frame == self.depth && same_text(b.name.as_str(), name) {
                return true;
            }
            if b.prev < t {
                t = b.prev;
            } else {
                return false;
            }
        }
        false
    }

    /// Binds `name` to `decl` in the innermost scope, unless it is bound there
    /// already: names are bound once.
    pub fn insert(&mut self, name: String, decl: Node) -> (r: bool)
        requires
            old(self).bindings@.len() < usize::MAX,
        ensures
            r == !declared_here(old(self)@, name@),
            r ==> final(self)@ == bind(old(self)@, name@, decl@),
            !r ==> final(self)@ == old(self)@,
    {
        if self.declared_here(name.as_str()) {
            false
        } else {
            self.push_binding(name, decl);
            true
        }
    }

    /// Binds `name` to `decl` in the innermost scope.
    pub fn push_binding(&mut self, name: String, decl: Node)
        requires
            old(self).bindings@.len() < usize::MAX,
        ensures
            final(self)@ == bind(old(self)@, name@, decl@),
    {
        let n = self.bindings.len() + 1;
        let b = Binding { name, decl, frame: self.depth, prev: self.top, home: (n, self.depth) };
        proof {
            lemma_view_push(self.bindings@, b);
        }
        self.bindings.push(b);
        self.top = n;
    }

    /// The number of bindings.
    pub fn len(&self) -> (r: usize)
        ensures
            r == self@.bindings.len(),
    {
        self.bindings.len()
    }
}

} // verus!
