//! Driving a tokenizer over the text of a reader, one character at a time.
use vstd::prelude::*;
use crate::pos::{Pos, Range, line_at, column_at, lemma_line_column_bounded, lemma_advance_agrees};
use crate::reader::CodeReader;
use crate::token::{Token, Tokenizer, RunState, RunTokenizer, emitted_view};

verus! {

/// The ranges of emitted tokens, in emission order.
pub open spec fn ranges_of(out: Seq<(Token, Range)>) -> Seq<Range> {
    out.map_values(|e: (Token, Range)| e.1)
}

/// `rs` covers `[from, to)` without gap or overlap: the first range starts at
/// `from`, each one starts where the one before it ends, none is negative, and
/// the last one ends at `to`.
pub open spec fn contiguous(rs: Seq<Range>, from: int, to: int) -> bool {
    &&& rs.len() == 0 ==> from == to
    &&& rs.len() > 0 ==> rs[0].at.offset == from && rs[rs.len() - 1].end() == to
    &&& forall|i: int| 0 <= i < rs.len() ==> #[trigger] rs[i].length >= 0
    &&& forall|i: int| 0 <= i < rs.len() - 1 ==> #[trigger] rs[i].end() == rs[i + 1].at.offset
}

/// Feeds every character of `reader`'s text, with its position, to a fresh
/// `tokenizer`, and collects what it emits. The emitted ranges cover the text
/// from its start up to the tokenizer's pending accumulation, without gap or
/// overlap; what is still pending is left to the tokenizer's end-of-input policy.
pub fn scan<R: CodeReader, T: Tokenizer>(reader: &R, tokenizer: &mut T) -> (r: Vec<(Token, Range)>)
    requires
        reader.text().len() < i64::MAX,
        old(tokenizer).inv(),
        old(tokenizer).next_offset() == 0,
        old(tokenizer).pending_start() == 0,
    ensures
        final(tokenizer).inv(),
        final(tokenizer).next_offset() == reader.text().len(),
        contiguous(ranges_of(r@), 0, final(tokenizer).pending_start()),
{
    let ghost text = reader.text();
    let mut out: Vec<(Token, Range)> = Vec::new();
    let mut pos = Pos::start();
    loop
        invariant_except_break
            text == reader.text(),
            text.len() < i64::MAX,
            pos.agrees_with(text),
            tokenizer.inv(),
            tokenizer.next_offset() == pos.offset,
            0 <= tokenizer.pending_start() <= tokenizer.next_offset(),
            contiguous(ranges_of(out@), 0, tokenizer.pending_start()),
        ensures
            tokenizer.inv(),
            tokenizer.next_offset() == text.len(),
            contiguous(ranges_of(out@), 0, tokenizer.pending_start()),
        decreases text.len() - pos.offset,
    {
        match reader.charAt(&pos) {
            Err(_) => {
                break ;
            },
            Ok(ch) => {
                let ghost before = ranges_of(out@);
                if let Some(e) = tokenizer.feed(&pos, ch) {
                    out.push(e);
                    assert(ranges_of(out@) =~= before.push(e.1));
                }
                proof {
                    lemma_line_column_bounded(text, pos.offset as int);
                }
                let next = pos.advance(ch);
                proof {
                    lemma_advance_agrees(pos, text, next);
                }
                pos = next;
            },
        }
    }
    out
}

/// The position of offset `k` in `text`, with its line and column.
pub open spec fn pos_in(text: Seq<char>, k: int) -> Pos {
    Pos { offset: k as i64, line: line_at(text, k) as i64, column: column_at(text, k) as i64 }
}

/// The state of a fresh run tokenizer after the first `n` characters of
/// `text` were fed, and the tokens it emitted on the way.
pub open spec fn run_prefix(text: Seq<char>, n: nat) -> (RunState, Seq<((Seq<char>, i64), Range)>)
    decreases n,
{
    if n == 0 {
        (RunState::initial(), Seq::empty())
    } else {
        let (s, out) = run_prefix(text, (n - 1) as nat);
        let (t, e) = s.step(pos_in(text, n - 1), text[n - 1]);
        match e {
            Some(x) => (t, out.push(x)),
            None => (t, out),
        }
    }
}

/// All tokens of `text` under the run tokenizer, the one emitted at end of
/// input included.
pub open spec fn run_tokens(text: Seq<char>) -> Seq<((Seq<char>, i64), Range)> {
    let (s, out) = run_prefix(text, text.len());
    match s.finish().1 {
        Some(x) => out.push(x),
        None => out,
    }
}

/// Tokenizing the same characters twice, each time with a fresh run
/// tokenizer, yields the same tokens with the same ranges, whichever readers
/// hold the characters.
pub proof fn lemma_tokenize_deterministic<R1: CodeReader, R2: CodeReader>(a: &R1, b: &R2)
    requires
        a.text() == b.text(),
    ensures
        run_tokens(a.text()) == run_tokens(b.text()),
{
}

/// Splits the whole text of `reader` into runs with a fresh `RunTokenizer`.
/// The result depends on the text alone, and its ranges cover the text from
/// its first to its last offset without gap or overlap.
pub fn tokenize<R: CodeReader>(reader: &R) -> (r: Vec<(Token, Range)>)
    requires
        reader.text().len() < i64::MAX,
    ensures
        r@.map_values(|e: (Token, Range)| emitted_view(e)) == run_tokens(reader.text()),
        contiguous(ranges_of(r@), 0, reader.text().len() as int),
{
    let ghost text = reader.text();
    let mut tokenizer = RunTokenizer::new();
    let mut out: Vec<(Token, Range)> = Vec::new();
    let mut pos = Pos::start();
    loop
        invariant_except_break
            text == reader.text(),
            text.len() < i64::MAX,
            pos.agrees_with(text),
            tokenizer@.inv(),
            tokenizer@.next == pos.offset,
            (tokenizer@, out@.map_values(|e: (Token, Range)| emitted_view(e))) == run_prefix(
                text,
                pos.offset as nat,
            ),
            contiguous(ranges_of(out@), 0, tokenizer@.pending_start()),
        ensures
            tokenizer@.inv(),
            tokenizer@.next == text.len(),
            (tokenizer@, out@.map_values(|e: (Token, Range)| emitted_view(e))) == run_prefix(
                text,
                text.len(),
            ),
            contiguous(ranges_of(out@), 0, tokenizer@.pending_start()),
        decreases text.len() - pos.offset,
    {
        match reader.charAt(&pos) {
            Err(_) => {
                break ;
            },
            Ok(ch) => {
                let ghost before = ranges_of(out@);
                let ghost views = out@.map_values(|e: (Token, Range)| emitted_view(e));
                assert(pos == pos_in(text, pos.offset as int));
                if let Some(e) = tokenizer.feed(&pos, ch) {
                    out.push(e);
                    assert(ranges_of(out@) =~= before.push(e.1));
                    assert(out@.map_values(|e: (Token, Range)| emitted_view(e)) =~= views.push(
                        emitted_view(e),
                    ));
                }
                proof {
                    lemma_line_column_bounded(text, pos.offset as int);
                }
                let next = pos.advance(ch);
                proof {
                    lemma_advance_agrees(pos, text, next);
                }
                pos = next;
            },
        }
    }
    let ghost before = ranges_of(out@);
    let ghost views = out@.map_values(|e: (Token, Range)| emitted_view(e));
    if let Some(e) = tokenizer.finish() {
        out.push(e);
        assert(ranges_of(out@) =~= before.push(e.1));
        assert(out@.map_values(|e: (Token, Range)| emitted_view(e)) =~= views.push(
            emitted_view(e),
        ));
    }
    out
}

} // verus!
