//! Positions in a document and the edits an editor applies to it.
use vstd::prelude::*;

verus! {

/// A place in a document: a line and a character on that line, both from 0.
#[derive(Debug, Clone, Copy, PartialEq, Eq, Structural)]
pub struct Position {
    pub line: u32,
    pub character: u32,
}

/// The stretch of a document between two positions.
#[derive(Debug, Clone, Copy, PartialEq, Eq, Structural)]
pub struct Range {
    pub start: Position,
    pub end: Position,
}

/// Text to put in place of a range.
#[derive(Debug, Clone)]
pub struct TextEdit {
    pub range: Range,
    pub new_text: String,
}

impl View for TextEdit {
    type V = (Range, Seq<char>);

    open spec fn view(&self) -> Self::V {
        (self.range, self.new_text@)
    }
}

/// The empty range at a position: an insertion there.
pub open spec fn at(p: Position) -> Range {
    Range { start: p, end: p }
}

/// The views of a list of edits.
pub open spec fn edits_view(v: Seq<TextEdit>) -> Seq<(Range, Seq<char>)> {
    v.map_values(|e: TextEdit| e@)
}

} // verus!
