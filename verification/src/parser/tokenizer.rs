//! Normalised tokens of a source, with their positions.

use vstd::prelude::*;
use vstd::string::StringSliceAdditionalSpecFns;
use crate::parser::line_index::{LineIndex, line_of};

verus! {

/// The kind of a normalised token.
#[derive(Debug, Clone, Copy, PartialEq, Eq, Structural)]
pub enum TokenKind {
    Identifier,
    String,
    Number,
    Keyword,
    Operator,
    Punctuation,
    Other,
}

/// A token, normalised, with where it starts and ends (1-based line and
/// column) and its place in the order of collection.
#[derive(Debug, Clone)]
pub struct NormalizedToken {
    pub kind: TokenKind,
    pub normalized: String,
    pub span_start: u32,
    pub span_end: u32,
    pub line: usize,
    pub column: usize,
    pub end_line: usize,
    pub end_column: usize,
    pub seq: u32,
}

/// Collects the tokens of one source.
pub struct TokenCollector {
    tokens: Vec<NormalizedToken>,
    line_index: LineIndex,
    seq: u32,
}

/// Whether `line` and `column` are the 1-based position of byte `offset`
/// among the line starts `starts`.
pub open spec fn position_of(starts: Seq<int>, offset: u32, line: usize, column: usize) -> bool {
    &&& line_of(starts, offset as int, line - 1)
    &&& column == offset - starts[line - 1] + 1
}

impl TokenCollector {
    /// The line starts of the source.
    pub closed spec fn starts(&self) -> Seq<int> {
        self.line_index@
    }

    /// The tokens collected so far, in order.
    pub closed spec fn token_seq(&self) -> Seq<NormalizedToken> {
        self.tokens@
    }

    /// The tokens collected so far, in order.
    pub fn tokens(&self) -> (r: &Vec<NormalizedToken>)
        ensures
            r@ == self.token_seq(),
    {
        &self.tokens
    }

    /// The counter that the next token gets.
    pub closed spec fn next_seq(&self) -> u32 {
        self.seq
    }

    /// Whether the collector is well formed.
    pub closed spec fn wf(&self) -> bool {
        self.line_index.wf()
    }

    /// A collector for `source`, with no token yet.
    pub fn new(source: &str) -> (r: Self)
        requires
            source.spec_bytes().len() < u32::MAX,
        ensures
            r.wf(),
            r.token_seq().len() == 0,
            r.next_seq() == 0,
            crate::parser::line_index::are_line_starts(source.spec_bytes(), r.starts()),
    {
        TokenCollector { tokens: Vec::new(), line_index: LineIndex::new(source), seq: 0 }
    }

    /// Records a token of kind `kind` spanning bytes `start..end`.
    pub fn add_token(&mut self, kind: TokenKind, normalized: String, start: u32, end: u32)
        requires
            old(self).wf(),
            start < u32::MAX,
            end < u32::MAX,
        ensures
            final(self).wf(),
            final(self).starts() == old(self).starts(),
            final(self).next_seq() == (if old(self).next_seq() == u32::MAX { 0 } else { (old(self).next_seq() + 1) as u32 }),
            final(self).token_seq().len() == old(self).token_seq().len() + 1,
            final(self).token_seq().take(old(self).token_seq().len() as int) == old(self).token_seq(),
            ({
                let t = final(self).token_seq().last();
                &&& t.kind == kind
                &&& t.normalized == normalized
                &&& t.span_start == start
                &&& t.span_end == end
                &&& t.seq == old(self).next_seq()
                &&& position_of(old(self).starts(), start, t.line, t.column)
                &&& position_of(old(self).starts(), end, t.end_line, t.end_column)
            }),
    {
        let (line, column) = self.line_index.line_col(start as usize);
        let (end_line, end_column) = self.line_index.line_col(end as usize);
        let seq = self.seq;
        self.seq = self.seq.wrapping_add(1);
        let ghost before = self.tokens@;
        self.tokens.push(NormalizedToken {
            kind,
            normalized,
            span_start: start,
            span_end: end,
            line,
            column,
            end_line,
            end_column,
            seq,
        });
        assert(self.tokens@.take(before.len() as int) =~= before);
    }
}

} // verus!
