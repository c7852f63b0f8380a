use vstd::prelude::*;
use vstd::string::StringExecFns;

use crate::text::{decimal_string, decimal_text};

verus! {

/// The line in the source stream (lines are counted from 1).
#[derive(Clone, Copy, PartialEq, Eq, Debug, Structural)]
pub struct Line(pub usize);

/// The column in the source stream (columns are counted from 0, in characters).
#[derive(Clone, Copy, PartialEq, Eq, Debug, Structural)]
pub struct Column(pub usize);

/// A coordinate in the source stream.
#[derive(Clone, Copy, PartialEq, Eq, Debug, Structural)]
pub struct Position {
    pub line: Line,
    pub column: Column,
}

/// The mathematical model of a coordinate: an unbounded line and column.
pub struct Point {
    pub line: nat,
    pub column: nat,
}

impl Point {
    /// The coordinate of the very first character of a text.
    pub open spec fn origin() -> Point {
        Point { line: 1, column: 0 }
    }

    /// The coordinate reached once `c` has been consumed at `self`: a newline
    /// ends the line and restarts the column count, any other character moves
    /// one column to the right.
    pub open spec fn after(self, c: char) -> Point {
        if c == '\n' {
            self.next_line()
        } else {
            self.right(1)
        }
    }

    /// The coordinate reached once every character of `text` has been
    /// consumed, in order, starting at `self`.
    pub open spec fn after_all(self, text: Seq<char>) -> Point
        decreases text.len(),
    {
        if text.len() == 0 {
            self
        } else {
            self.after_all(text.drop_last()).after(text.last())
        }
    }

    /// The coordinate `n` columns to the right on the same line.
    pub open spec fn right(self, n: nat) -> Point {
        Point { line: self.line, column: self.column + n }
    }

    /// The start of the following line.
    pub open spec fn next_line(self) -> Point {
        Point { line: self.line + 1, column: 0 }
    }

    /// Document order: `self` is at or before `other`.
    pub open spec fn at_or_before(self, other: Point) -> bool {
        self.line < other.line || (self.line == other.line && self.column <= other.column)
    }
}

impl View for Position {
    type V = Point;

    open spec fn view(&self) -> Point {
        Point { line: self.line.0 as nat, column: self.column.0 as nat }
    }
}

/// The extent of a piece of source text: where it starts and where it ends
/// (the end is exclusive).
#[derive(Clone, Copy, PartialEq, Eq, Debug, Structural)]
pub struct Span {
    pub start_line: Line,
    pub start_col: Column,
    pub end_line: Line,
    pub end_col: Column,
}

impl Default for Span {
    /// The empty span at the origin of a text.
    fn default() -> (s: Self)
        ensures
            s.start() == Point::origin(),
            s.end() == Point::origin(),
            s.wf(),
    {
        Self { start_line: Line(1), start_col: Column(0), end_line: Line(1), end_col: Column(0) }
    }
}

impl Span {
    /// Where the span starts.
    pub open spec fn start(&self) -> Point {
        Point { line: self.start_line.0 as nat, column: self.start_col.0 as nat }
    }

    /// Where the span ends.
    pub open spec fn end(&self) -> Point {
        Point { line: self.end_line.0 as nat, column: self.end_col.0 as nat }
    }

    /// A span is well formed when its end is not before its start.
    pub open spec fn wf(&self) -> bool {
        self.start().at_or_before(self.end())
    }

    /// The span covers nothing: it ends where it starts.
    pub open spec fn is_empty(&self) -> bool {
        self.start() == self.end()
    }

    pub open spec fn spec_is_one_line(&self) -> bool {
        self.start_line.0 == self.end_line.0
    }

    pub open spec fn spec_is_n_chars(&self, n: nat) -> bool {
        self.spec_is_one_line() && self.end_col.0 - self.start_col.0 == n
    }

    /// The compact form of a span: `line:column-column` where it lies on one
    /// line, and `line:column-line:column` where it does not.
    pub open spec fn debug_text(&self) -> Seq<char> {
        let start = decimal_text(self.start_line.0 as nat) + ":"@ + decimal_text(
            self.start_col.0 as nat,
        ) + "-"@;
        if self.spec_is_one_line() {
            start + decimal_text(self.end_col.0 as nat)
        } else {
            start + decimal_text(self.end_line.0 as nat) + ":"@ + decimal_text(
                self.end_col.0 as nat,
            )
        }
    }

    /// Renders the compact form of the span.
    pub fn to_debug_string(&self) -> (s: String)
        ensures
            s@ == self.debug_text(),
    {
        let mut s = decimal_string(self.start_line.0);
        s.append(":");
        s.append(decimal_string(self.start_col.0).as_str());
        s.append("-");
        if self.is_one_line() {
            s.append(decimal_string(self.end_col.0).as_str());
        } else {
            s.append(decimal_string(self.end_line.0).as_str());
            s.append(":");
            s.append(decimal_string(self.end_col.0).as_str());
        }
        s
    }

    /// Creates a new one-char span
    pub fn new(l: Line, c: Column) -> (s: Self)
        requires
            c.0 < usize::MAX,
        ensures
            s.start() == (Point { line: l.0 as nat, column: c.0 as nat }),
            s.end() == s.start().right(1),
            s.wf(),
            s.spec_is_n_chars(1),
    {
        Span { start_line: l, start_col: c, end_line: l, end_col: Column(c.0 + 1) }
    }

    /// Returns true if the span is a one-line one.
    #[inline]
    pub fn is_one_line(&self) -> (r: bool)
        ensures
            r == self.spec_is_one_line(),
    {
        self.start_line.0 == self.end_line.0
    }

    /// Returns true if the span is on the same line and has n characters.
    pub fn is_n_chars(&self, n: usize) -> (r: bool)
        requires
            self.wf(),
        ensures
            r == self.spec_is_n_chars(n as nat),
    {
        self.is_one_line() && self.end_col.0 - self.start_col.0 == n
    }

    /// Returns true if the span is a two-chars one.
    #[inline]
    pub fn is_two_chars(&self) -> (r: bool)
        requires
            self.wf(),
        ensures
            r == self.spec_is_n_chars(2),
    {
        self.is_n_chars(2)
    }

    /// Returns true if the span is one-char one.
    #[inline]
    pub fn is_one_char(&self) -> (r: bool)
        requires
            self.wf(),
        ensures
            r == self.spec_is_n_chars(1),
    {
        self.is_n_chars(1)
    }

    /// Returns true if the span is a multi-line one.
    #[inline]
    pub fn is_multi_line(&self) -> (r: bool)
        ensures
            r == !self.spec_is_one_line(),
    {
        !self.is_one_line()
    }

    /// Increments the column of a span by `n`.
    #[inline]
    pub fn incr_col_n(&mut self, n: usize)
        requires
            old(self).end_col.0 + n <= usize::MAX,
        ensures
            final(self).start() == old(self).start(),
            final(self).end() == old(self).end().right(n as nat),
            old(self).wf() ==> final(self).wf(),
    {
        self.end_col = Column(self.end_col.0 + n);
    }

    /// Increments the column of a span
    #[inline]
    pub fn incr_col(&mut self)
        requires
            old(self).end_col.0 < usize::MAX,
        ensures
            final(self).start() == old(self).start(),
            final(self).end() == old(self).end().right(1),
            old(self).wf() ==> final(self).wf(),
    {
        self.incr_col_n(1)
    }

    /// Increment the line of a span
    pub fn incr_line(&mut self)
        requires
            old(self).end_line.0 < usize::MAX,
        ensures
            final(self).start() == old(self).start(),
            final(self).end() == old(self).end().next_line(),
            old(self).wf() ==> final(self).wf(),
    {
        self.end_line = Line(self.end_line.0 + 1);
        self.end_col = Column(0);
    }

    /// Completes a span and starts a new one.
    pub fn complete(&mut self) -> (s: Self)
        ensures
            s == *old(self),
            final(self).start() == old(self).end(),
            final(self).end() == old(self).end(),
            final(self).wf(),
            final(self).is_empty(),
    {
        let s = *self;

        self.start_line = self.end_line;
        let e = self.end_col;
        self.start_col = e;
        self.end_col = e;

        s
    }
}

} // verus!
