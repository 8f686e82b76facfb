//! Resolving positions and ranges against a loaded, immutable text buffer.
use vstd::prelude::*;
use crate::pos::{Pos, Range};

verus! {

/// What went wrong in a reader.
#[derive(Clone, Copy, Debug, PartialEq, Eq, Structural)]
pub enum ErrorKind {
    /// The source could not be opened or fully read.
    Io,
    /// A position or range fell outside the buffer.
    OutOfBounds,
}

/// An error of a reader: its kind, an optional message and an optional
/// description of the underlying cause.
#[derive(Clone, Debug)]
pub struct CodeReaderError {
    pub kind: ErrorKind,
    pub msg: Option<String>,
    pub cause: Option<String>,
}

/// Text of an optional string, empty when absent.
pub open spec fn text_of(s: Option<String>) -> Seq<char> {
    match s {
        Some(t) => t@,
        None => Seq::empty(),
    }
}

impl CodeReaderError {
    /// An out-of-bounds error carrying `msg`.
    pub fn new(msg: &str) -> (r: CodeReaderError)
        ensures
            r.kind == ErrorKind::OutOfBounds,
            r.msg is Some && r.msg->0@ == msg@,
            r.cause is None,
    {
        CodeReaderError { kind: ErrorKind::OutOfBounds, msg: Some(msg.to_owned()), cause: None }
    }

    /// An I/O error that owns the description of its cause.
    pub fn from(cause: &str) -> (r: CodeReaderError)
        ensures
            r.kind == ErrorKind::Io,
            r.msg is None,
            r.cause is Some && r.cause->0@ == cause@,
    {
        CodeReaderError { kind: ErrorKind::Io, msg: None, cause: Some(cause.to_owned()) }
    }

    /// The message followed by the cause, each left out when absent.
    pub fn message(&self) -> (r: String)
        ensures
            r@ == text_of(self.msg) + text_of(self.cause),
    {
        let mut s = String::new();
        if let Some(m) = &self.msg {
            s.append(m.as_str());
        }
        if let Some(c) = &self.cause {
            s.append(c.as_str());
        }
        s
    }
}

/// The character at `offset`, if it lies inside `text`.
pub open spec fn char_at(text: Seq<char>, offset: int) -> Option<char> {
    if 0 <= offset < text.len() {
        Some(text[offset])
    } else {
        None
    }
}

/// Whether `range` addresses a span of `text`: a non-negative length, a start
/// in `[0, len]` and an end no further than `len`.
pub open spec fn in_bounds(text: Seq<char>, range: Range) -> bool {
    &&& 0 <= range.at.offset
    &&& 0 <= range.length
    &&& range.end() <= text.len()
}

/// The characters of `text` that `range` covers, if it lies inside `text`.
pub open spec fn piece_at(text: Seq<char>, range: Range) -> Option<Seq<char>> {
    if in_bounds(text, range) {
        Some(text.subrange(range.at.offset as int, range.end()))
    } else {
        None
    }
}

/// The range that starts at offset 0 and spans the whole text resolves to
/// exactly that text.
pub proof fn lemma_whole_range_round_trip(text: Seq<char>, at: Pos)
    requires
        at.offset == 0,
        text.len() <= i64::MAX,
    ensures
        piece_at(text, Range { at, length: text.len() as i64 }) == Some(text),
{
    assert(text.subrange(0, text.len() as int) =~= text);
}

/// A character is found at exactly the offsets in `[0, len)`; the end of the
/// text and every negative offset are out of bounds.
pub proof fn lemma_char_bounds(text: Seq<char>, offset: int)
    ensures
        char_at(text, offset) is Some <==> 0 <= offset < text.len(),
        offset == text.len() ==> char_at(text, offset) is None,
        offset < 0 ==> char_at(text, offset) is None,
{
}

/// An empty range at any boundary in `[0, len]`, the end included, resolves
/// to the empty sequence.
pub proof fn lemma_empty_range(text: Seq<char>, at: Pos)
    requires
        0 <= at.offset <= text.len(),
    ensures
        piece_at(text, Range { at, length: 0 }) == Some(Seq::<char>::empty()),
{
    assert(text.subrange(at.offset as int, at.offset as int) =~= Seq::<char>::empty());
}

/// Resolves positions and ranges against the text of one named source.
#[allow(non_snake_case)]
pub trait CodeReader {
    /// The whole text of the source.
    spec fn text(&self) -> Seq<char>;

    /// The logical name of the source.
    spec fn name(&self) -> Seq<char>;

    fn path(&self) -> (r: &str)
        ensures
            r@ == self.name(),
    ;

    /// The character at `pos.offset`, or `OutOfBounds` when the offset is
    /// negative or not below the text's length.
    fn charAt(&self, pos: &Pos) -> (r: Result<char, CodeReaderError>)
        ensures
            match r {
                Ok(c) => char_at(self.text(), pos.offset as int) == Some(c),
                Err(e) => char_at(self.text(), pos.offset as int) is None && e.kind
                    == ErrorKind::OutOfBounds,
            },
    ;

    /// The characters of `[range.at.offset, range.at.offset + range.length)`,
    /// or `OutOfBounds` when that span is not inside the text.
    fn pieceAt(&self, range: &Range) -> (r: Result<Vec<char>, CodeReaderError>)
        ensures
            match r {
                Ok(v) => piece_at(self.text(), *range) == Some(v@),
                Err(e) => piece_at(self.text(), *range) is None && e.kind
                    == ErrorKind::OutOfBounds,
            },
    ;
}

/// A reader over the text of one source, loaded whole and never changed.
#[derive(Debug)]
pub struct FileCodeReader {
    path: String,
    buf: Vec<char>,
}

impl FileCodeReader {
    /// A reader named `path` over the characters of `text`.
    pub fn new(path: &str, text: &str) -> (r: FileCodeReader)
        ensures
            r.text() == text@,
            r.name() == path@,
    {
        let mut buf: Vec<char> = Vec::new();
        for ch in it: text.chars()
            invariant
                it.seq() == text@,
                buf@ == text@.subrange(0, it.index() as int),
        {
            buf.push(ch);
        }
        assert(buf@ == text@);
        FileCodeReader { path: path.to_owned(), buf }
    }
}

#[allow(non_snake_case)]
impl CodeReader for FileCodeReader {
    closed spec fn text(&self) -> Seq<char> {
        self.buf@
    }

    closed spec fn name(&self) -> Seq<char> {
        self.path@
    }

    fn path(&self) -> (r: &str) {
        self.path.as_str()
    }

    fn charAt(&self, pos: &Pos) -> (r: Result<char, CodeReaderError>) {
        if pos.offset < 0 || pos.offset as u64 >= self.buf.len() as u64 {
            return Err(CodeReaderError::new("pos is out of bounds!"));
        }
        Ok(self.buf[pos.offset as usize])
    }

    fn pieceAt(&self, range: &Range) -> (r: Result<Vec<char>, CodeReaderError>) {
        if range.at.offset < 0 || range.length < 0 {
            return Err(CodeReaderError::new("range is out of bounds!"));
        }
        let start: u64 = range.at.offset as u64;
        let end: u64 = start + range.length as u64;
        if end > self.buf.len() as u64 {
            return Err(CodeReaderError::new("range is out of bounds!"));
        }
        let mut piece: Vec<char> = Vec::with_capacity((end - start) as usize);
        let mut i: usize = start as usize;
        while i < end as usize
            invariant
                start <= i <= end <= self.buf@.len(),
                piece@ == self.buf@.subrange(start as int, i as int),
            decreases end - i,
        {
            piece.push(self.buf[i]);
            i = i + 1;
        }
        Ok(piece)
    }
}

} // verus!
