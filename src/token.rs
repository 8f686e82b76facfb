//! Tokens and the character-feeding tokenizer protocol, with one concrete
//! tokenizer that splits text into runs of word, space and symbol characters.
use vstd::prelude::*;
use crate::pos::{Pos, Range};

verus! {

/// A classified lexical unit: a kind name and an identifying tag. Its location
/// travels beside it, never inside it.
#[derive(Clone, Debug)]
pub struct Token {
    pub name: String,
    pub id: i64,
}

impl View for Token {
    type V = (Seq<char>, i64);

    open spec fn view(&self) -> (Seq<char>, i64) {
        (self.name@, self.id)
    }
}

impl PartialEq for Token {
    fn eq(&self, o: &Token) -> (r: bool) {
        self.name == o.name && self.id == o.id
    }
}

impl vstd::std_specs::cmp::PartialEqSpecImpl for Token {
    open spec fn obeys_eq_spec() -> bool {
        true
    }

    open spec fn eq_spec(&self, o: &Token) -> bool {
        self@ == o@
    }
}

/// A token with its range, as seen by specifications.
pub open spec fn emitted_view(e: (Token, Range)) -> ((Seq<char>, i64), Range) {
    (e.0@, e.1)
}

/// The optional result of one tokenizer step, as seen by specifications.
pub open spec fn step_view(r: Option<(Token, Range)>) -> Option<((Seq<char>, i64), Range)> {
    match r {
        Some(e) => Some(emitted_view(e)),
        None => None,
    }
}

/// A state machine fed one character and its position at a time, in
/// increasing offset order without gaps. Every range it emits starts where
/// the previous one ended, so emitted ranges never gap or overlap.
pub trait Tokenizer {
    /// Offset of the character the tokenizer expects next.
    spec fn next_offset(&self) -> int;

    /// Offset where the pending, not yet emitted accumulation starts.
    spec fn pending_start(&self) -> int;

    /// The tokenizer's internal invariant.
    spec fn inv(&self) -> bool;

    fn feed(&mut self, pos: &Pos, ch: char) -> (r: Option<(Token, Range)>)
        requires
            old(self).inv(),
            0 <= old(self).pending_start() <= old(self).next_offset(),
            pos.offset == old(self).next_offset(),
            pos.offset < i64::MAX,
        ensures
            final(self).inv(),
            final(self).next_offset() == pos.offset + 1,
            0 <= final(self).pending_start() <= final(self).next_offset(),
            match r {
                Some(e) => e.1.at.offset == old(self).pending_start() && 0 <= e.1.length
                    && e.1.end() == final(self).pending_start(),
                None => final(self).pending_start() == old(self).pending_start(),
            },
    ;
}

/// How the run tokenizer classifies a character.
#[derive(Clone, Copy, Debug, PartialEq, Eq, Structural)]
pub enum CharClass {
    /// ASCII letters, digits and `_`; consecutive ones form one token.
    Word,
    /// Space, tab, line feed and carriage return; consecutive ones form one token.
    Space,
    /// Any other character; each forms a token of its own.
    Symbol,
}

pub open spec fn class_of(ch: char) -> CharClass {
    if ('a' <= ch <= 'z') || ('A' <= ch <= 'Z') || ('0' <= ch <= '9') || ch == '_' {
        CharClass::Word
    } else if ch == ' ' || ch == '\t' || ch == '\n' || ch == '\r' {
        CharClass::Space
    } else {
        CharClass::Symbol
    }
}

pub open spec fn class_name(c: CharClass) -> Seq<char> {
    match c {
        CharClass::Word => "word"@,
        CharClass::Space => "space"@,
        CharClass::Symbol => "symbol"@,
    }
}

pub fn classify(ch: char) -> (r: CharClass)
    ensures
        r == class_of(ch),
{
    if ('a' <= ch && ch <= 'z') || ('A' <= ch && ch <= 'Z') || ('0' <= ch && ch <= '9') || ch
        == '_' {
        CharClass::Word
    } else if ch == ' ' || ch == '\t' || ch == '\n' || ch == '\r' {
        CharClass::Space
    } else {
        CharClass::Symbol
    }
}

/// The kind name of tokens of class `c`.
pub fn kind_name(c: CharClass) -> (r: String)
    ensures
        r@ == class_name(c),
{
    match c {
        CharClass::Word => String::from_str("word"),
        CharClass::Space => String::from_str("space"),
        CharClass::Symbol => String::from_str("symbol"),
    }
}

/// The state of a run tokenizer: the class and start of the pending run, the
/// offset expected next and the number of tokens emitted so far.
#[derive(Clone, Copy, Debug)]
pub struct RunState {
    pub pending: Option<(CharClass, Pos)>,
    pub next: i64,
    pub count: i64,
}

impl RunState {
    pub open spec fn initial() -> RunState {
        RunState { pending: None, next: 0, count: 0 }
    }

    pub open spec fn pending_start(self) -> int {
        match self.pending {
            Some(p) => p.1.offset as int,
            None => self.next as int,
        }
    }

    /// Each emitted token covers at least one character, and the pending run
    /// is not empty.
    pub open spec fn inv(self) -> bool {
        &&& 0 <= self.count <= self.pending_start() <= self.next
        &&& self.pending is Some ==> self.pending_start() < self.next
    }

    /// One step: the character joins the pending run, or the run is emitted as
    /// a token ending just before the character, which starts a new run.
    pub open spec fn step(self, pos: Pos, ch: char) -> (RunState, Option<((Seq<char>, i64), Range)>) {
        let c = class_of(ch);
        let next = (pos.offset + 1) as i64;
        match self.pending {
            None => (RunState { pending: Some((c, pos)), next, count: self.count }, None),
            Some(p) => {
                if p.0 == c && c != CharClass::Symbol {
                    (RunState { pending: self.pending, next, count: self.count }, None)
                } else {
                    (
                        RunState { pending: Some((c, pos)), next, count: (self.count + 1) as i64 },
                        Some(
                            (
                                (class_name(p.0), self.count),
                                Range { at: p.1, length: (pos.offset - p.1.offset) as i64 },
                            ),
                        ),
                    )
                }
            },
        }
    }

    /// End of input: a pending run is emitted as a final token up to the
    /// expected offset; with nothing pending nothing happens.
    pub open spec fn finish(self) -> (RunState, Option<((Seq<char>, i64), Range)>) {
        match self.pending {
            None => (self, None),
            Some(p) => (
                RunState { pending: None, next: self.next, count: (self.count + 1) as i64 },
                Some(
                    (
                        (class_name(p.0), self.count),
                        Range { at: p.1, length: (self.next - p.1.offset) as i64 },
                    ),
                ),
            ),
        }
    }
}

/// A tokenizer that emits maximal runs of word characters, maximal runs of
/// space characters, and each other character alone. Tokens are tagged with
/// their emission index. A run ends when a character of another class (or a
/// symbol) arrives; that character starts the next run.
#[derive(Debug)]
pub struct RunTokenizer {
    state: RunState,
}

impl View for RunTokenizer {
    type V = RunState;

    closed spec fn view(&self) -> RunState {
        self.state
    }
}

impl RunTokenizer {
    pub fn new() -> (r: RunTokenizer)
        ensures
            r@ == RunState::initial(),
    {
        RunTokenizer { state: RunState { pending: None, next: 0, count: 0 } }
    }

    /// Signals end of input: emits the pending run, if any, as a final token.
    pub fn finish(&mut self) -> (r: Option<(Token, Range)>)
        requires
            old(self)@.inv(),
        ensures
            (final(self)@, step_view(r)) == old(self)@.finish(),
            final(self)@.inv(),
            final(self)@.pending_start() == old(self)@.next,
    {
        match self.state.pending {
            None => None,
            Some(p) => {
                let token = Token { name: kind_name(p.0), id: self.state.count };
                let range = Range { at: p.1, length: self.state.next - p.1.offset };
                self.state = RunState { pending: None, next: self.state.next, count: self.state.count + 1 };
                Some((token, range))
            },
        }
    }
}

impl Tokenizer for RunTokenizer {
    open spec fn next_offset(&self) -> int {
        self@.next as int
    }

    open spec fn pending_start(&self) -> int {
        self@.pending_start()
    }

    open spec fn inv(&self) -> bool {
        self@.inv()
    }

    fn feed(&mut self, pos: &Pos, ch: char) -> (r: Option<(Token, Range)>)
        ensures
            (final(self)@, step_view(r)) == old(self)@.step(*pos, ch),
    {
        let c = classify(ch);
        let next = pos.offset + 1;
        match self.state.pending {
            None => {
                self.state = RunState { pending: Some((c, *pos)), next, count: self.state.count };
                None
            },
            Some(p) => {
                if p.0 == c && c != CharClass::Symbol {
                    self.state = RunState { pending: self.state.pending, next, count: self.state.count };
                    None
                } else {
                    let token = Token { name: kind_name(p.0), id: self.state.count };
                    let range = Range { at: p.1, length: pos.offset - p.1.offset };
                    self.state = RunState { pending: Some((c, *pos)), next, count: self.state.count + 1 };
                    Some((token, range))
                }
            },
        }
    }
}

} // verus!
