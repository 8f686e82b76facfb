//! Positions and ranges over a character-addressed source buffer.
use vstd::prelude::*;

verus! {

/// Line of the character at `offset`, counting line feeds before it (1-based).
pub open spec fn line_at(text: Seq<char>, offset: int) -> int
    decreases offset,
{
    if offset <= 0 {
        1
    } else if text[offset - 1] == '\n' {
        line_at(text, offset - 1) + 1
    } else {
        line_at(text, offset - 1)
    }
}

/// Column of the character at `offset`: characters since the last line feed, plus one.
pub open spec fn column_at(text: Seq<char>, offset: int) -> int
    decreases offset,
{
    if offset <= 0 {
        1
    } else if text[offset - 1] == '\n' {
        1
    } else {
        column_at(text, offset - 1) + 1
    }
}

/// A location in source text: the offset is authoritative, line and column are
/// derived from it.
#[derive(Clone, Copy, Debug, PartialEq, Eq, Structural, PartialOrd, Ord)]
pub struct Pos {
    pub offset: i64,
    pub line: i64,
    pub column: i64,
}

impl Pos {
    /// `line` and `column` agree with `offset` under line-feed line breaks.
    pub open spec fn agrees_with(self, text: Seq<char>) -> bool {
        &&& 0 <= self.offset <= text.len()
        &&& self.line == line_at(text, self.offset as int)
        &&& self.column == column_at(text, self.offset as int)
    }

    /// Builds a position from raw parts; nothing is checked against a buffer.
    pub fn new(offset: i64, line: i64, column: i64) -> (r: Pos)
        ensures
            r == (Pos { offset, line, column }),
    {
        Pos { offset, line, column }
    }

    /// The first position of any source: offset 0, line 1, column 1.
    pub fn start() -> (r: Pos)
        ensures
            r == (Pos { offset: 0, line: 1, column: 1 }),
            forall|text: Seq<char>| r.agrees_with(text),
    {
        Pos { offset: 0, line: 1, column: 1 }
    }

    /// The position that follows this one once `ch` has been read at it.
    pub fn advance(&self, ch: char) -> (r: Pos)
        requires
            self.offset < i64::MAX,
            self.line < i64::MAX,
            self.column < i64::MAX,
        ensures
            r.offset == self.offset + 1,
            ch == '\n' ==> r.line == self.line + 1 && r.column == 1,
            ch != '\n' ==> r.line == self.line && r.column == self.column + 1,
    {
        if ch == '\n' {
            Pos { offset: self.offset + 1, line: self.line + 1, column: 1 }
        } else {
            Pos { offset: self.offset + 1, line: self.line, column: self.column + 1 }
        }
    }
}

/// Line and column never exceed the offset plus one.
pub proof fn lemma_line_column_bounded(text: Seq<char>, offset: int)
    requires
        0 <= offset,
    ensures
        1 <= line_at(text, offset) <= offset + 1,
        1 <= column_at(text, offset) <= offset + 1,
    decreases offset,
{
    if offset > 0 {
        lemma_line_column_bounded(text, offset - 1);
    }
}

/// Advancing over the character at a position keeps line and column in
/// agreement with the offset.
pub proof fn lemma_advance_agrees(p: Pos, text: Seq<char>, q: Pos)
    requires
        p.agrees_with(text),
        p.offset < text.len(),
        q.offset == p.offset + 1,
        text[p.offset as int] == '\n' ==> q.line == p.line + 1 && q.column == 1,
        text[p.offset as int] != '\n' ==> q.line == p.line && q.column == p.column + 1,
    ensures
        q.agrees_with(text),
{
}

/// A half-open span `[at.offset, at.offset + length)` of source text.
#[derive(Clone, Copy, Debug, PartialEq, Eq, Structural)]
pub struct Range {
    pub at: Pos,
    pub length: i64,
}

impl Range {
    /// Offset just past the last character of the range.
    pub open spec fn end(self) -> int {
        self.at.offset + self.length
    }

    pub fn new(at: Pos, length: i64) -> (r: Range)
        ensures
            r == (Range { at, length }),
    {
        Range { at, length }
    }

    /// Whether `next` starts exactly where this range ends.
    pub fn is_followed_by(&self, next: &Range) -> (r: bool)
        ensures
            r == (self.end() == next.at.offset),
    {
        (self.at.offset as i128) + (self.length as i128) == next.at.offset as i128
    }
}

/// A position qualified with the name of the source it belongs to.
#[derive(Clone, Debug)]
pub struct CodePos {
    pub filename: String,
    pub offset: i64,
    pub line: i64,
    pub column: i64,
}

impl CodePos {
    pub fn new(filename: &str, pos: &Pos) -> (r: CodePos)
        ensures
            r.filename@ == filename@,
            r.offset == pos.offset,
            r.line == pos.line,
            r.column == pos.column,
    {
        CodePos { filename: filename.to_owned(), offset: pos.offset, line: pos.line, column: pos.column }
    }

    /// The position without its source name.
    pub fn pos(&self) -> (r: Pos)
        ensures
            r == (Pos { offset: self.offset, line: self.line, column: self.column }),
    {
        Pos { offset: self.offset, line: self.line, column: self.column }
    }
}

/// A range qualified with the name of the source it belongs to.
#[derive(Clone, Debug)]
pub struct CodeRange {
    pub filename: String,
    pub offset: i64,
    pub length: i64,
}

impl CodeRange {
    pub fn new(filename: &str, range: &Range) -> (r: CodeRange)
        ensures
            r.filename@ == filename@,
            r.offset == range.at.offset,
            r.length == range.length,
    {
        CodeRange { filename: filename.to_owned(), offset: range.at.offset, length: range.length }
    }

    /// Whether both ranges address the same source and `next` starts where this one ends.
    pub fn is_followed_by(&self, next: &CodeRange) -> (r: bool)
        ensures
            r == (self.filename@ == next.filename@ && self.offset + self.length == next.offset),
    {
        self.filename == next.filename && (self.offset as i128) + (self.length as i128)
            == next.offset as i128
    }
}

} // verus!
