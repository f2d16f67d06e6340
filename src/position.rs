use vstd::prelude::*;

verus! {

/// A place in source text: line and column (both from zero) and the
/// character offset from the start.
#[derive(PartialEq, Eq, Structural, PartialOrd, Ord, Hash, Debug, Copy, Clone)]
pub struct Position {
    pub line: usize,
    pub column: usize,
    pub idx: usize,
}

impl Position {
    pub fn new(line: usize, column: usize, idx: usize) -> (r: Position)
        ensures
            r == (Position { line, column, idx }),
    {
        Position { line, column, idx }
    }

    /// Steps over a line break.
    pub fn new_line(&mut self)
        requires
            old(self).line < usize::MAX,
            old(self).idx < usize::MAX,
        ensures
            final(self).line == old(self).line + 1,
            final(self).column == 0,
            final(self).idx == old(self).idx + 1,
    {
        self.line = self.line + 1;
        self.column = 0;
        self.idx = self.idx + 1;
    }

    /// Steps over one character of a line.
    pub fn right_shift(&mut self)
        requires
            old(self).column < usize::MAX,
            old(self).idx < usize::MAX,
        ensures
            final(self).line == old(self).line,
            final(self).column == old(self).column + 1,
            final(self).idx == old(self).idx + 1,
    {
        self.column = self.column + 1;
        self.idx = self.idx + 1;
    }

    /// The empty span at this position.
    pub fn into_span(self) -> (r: Span)
        ensures
            r.start == self,
            r.end == self,
    {
        Span { start: self, end: self }
    }
}

impl Default for Position {
    fn default() -> (r: Position)
        ensures
            r == (Position { line: 0, column: 0, idx: 0 }),
    {
        Position { line: 0, column: 0, idx: 0 }
    }
}

/// A stretch of source text between two positions.
#[derive(PartialEq, Eq, Structural, Debug, Copy, Clone)]
pub struct Span {
    pub start: Position,
    pub end: Position,
}

impl Span {
    pub fn new(start: Position, end: Position) -> (r: Span)
        ensures
            r.start == start,
            r.end == end,
    {
        Span { start, end }
    }
}

/// Line of the character at offset `n` of `s`: the line breaks before it.
pub open spec fn line_of(s: Seq<char>, n: int) -> nat
    decreases n,
{
    if n <= 0 {
        0
    } else if s[n - 1] == '\n' {
        line_of(s, n - 1) + 1
    } else {
        line_of(s, n - 1)
    }
}

/// Column of the character at offset `n` of `s`: the characters since the
/// last line break before it.
pub open spec fn column_of(s: Seq<char>, n: int) -> nat
    decreases n,
{
    if n <= 0 {
        0
    } else if s[n - 1] == '\n' {
        0
    } else {
        column_of(s, n - 1) + 1
    }
}

proof fn lemma_line_column_bounded(s: Seq<char>, n: int)
    requires
        0 <= n,
    ensures
        line_of(s, n) <= n,
        column_of(s, n) <= n,
    decreases n,
{
    if n > 0 {
        lemma_line_column_bounded(s, n - 1);
    }
}

/// The position of offset `n` in `s`, found by walking the text from its start.
pub fn locate(s: &Vec<char>, n: usize) -> (r: Position)
    requires
        n <= s@.len(),
    ensures
        r.idx == n,
        r.line == line_of(s@, n as int),
        r.column == column_of(s@, n as int),
{
    let mut p = Position::default();
    let mut i: usize = 0;
    while i < n
        invariant
            i <= n <= s@.len(),
            p.idx == i,
            p.line == line_of(s@, i as int),
            p.column == column_of(s@, i as int),
        decreases n - i,
    {
        proof {
            lemma_line_column_bounded(s@, i as int);
        }
        if s[i] == '\n' {
            p.new_line();
        } else {
            p.right_shift();
        }
        i = i + 1;
    }
    p
}

} // verus!
