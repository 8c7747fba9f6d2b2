//! Document highlights: every whole-word occurrence of the symbol under the
//! cursor, marked as written or read.
use vstd::prelude::*;

use crate::references::{
    bounded_lines, cursor_symbol, cursor_symbol_exec, occurrence_range, occurrence_range_exec,
    search_splits_char, word_hits, word_hits_exec,
};
use crate::semantic_tokens::MAX_DOCUMENT_CHARS;
use crate::text::{self, contains_char, starts_with_str, trim_chars, view_all};
use crate::text_edit::{Position, Range};

verus! {

/// How an occurrence uses the symbol.
#[derive(Debug, Clone, Copy, PartialEq, Eq, Structural)]
pub enum DocumentHighlightKind {
    Text,
    Read,
    Write,
}

/// An occurrence to highlight.
#[derive(Debug)]
pub struct DocumentHighlight {
    pub range: Range,
    pub kind: Option<DocumentHighlightKind>,
}

/// A line that writes: a declaration, or any line with `=`.
pub open spec fn is_write_line(line: Seq<char>) -> bool {
    text::starts_with(text::trim(line), "VAR"@) || line.contains('=')
}

/// The highlights of line `k`.
pub open spec fn line_highlights(line: Seq<char>, k: int, sym: Seq<char>) -> Seq<(Range, DocumentHighlightKind)> {
    let kind = if is_write_line(line) {
        DocumentHighlightKind::Write
    } else {
        DocumentHighlightKind::Read
    };
    word_hits(line, sym, 0).map_values(|i: int| (occurrence_range(line, k, sym, i), kind))
}

/// The highlights from line `k` on.
pub open spec fn highlights_from(ls: Seq<Seq<char>>, k: int, sym: Seq<char>) -> Seq<(Range, DocumentHighlightKind)>
    decreases ls.len() - k,
{
    if k < 0 || k >= ls.len() {
        seq![]
    } else {
        line_highlights(ls[k], k, sym) + highlights_from(ls, k + 1, sym)
    }
}

/// The highlights of the symbol under the cursor.
pub open spec fn highlights(content: Seq<char>, pos: Position) -> Seq<(Range, DocumentHighlightKind)> {
    match cursor_symbol(content, pos) {
        Some(s) => highlights_from(text::lines(content), 0, s),
        None => seq![],
    }
}

/// The views of a list of highlights.
pub open spec fn highlights_view(v: Seq<DocumentHighlight>) -> Seq<Option<(Range, DocumentHighlightKind)>> {
    v.map_values(
        |h: DocumentHighlight|
            match h.kind {
                Some(k) => Some((h.range, k)),
                None => None,
            },
    )
}

fn line_highlights_exec(line: &[char], k: usize, sym: &[char], out: &mut Vec<DocumentHighlight>)
    requires
        line@.len() <= MAX_DOCUMENT_CHARS,
        sym@.len() <= MAX_DOCUMENT_CHARS,
        k <= MAX_DOCUMENT_CHARS,
    ensures
        highlights_view(final(out)@) == highlights_view(old(out)@) + line_highlights(line@, k as int, sym@).map_values(
            |x: (Range, DocumentHighlightKind)| Some(x),
        ),
{
    let kind = if starts_with_str(trim_chars(line), "VAR") || contains_char(line, '=') {
        DocumentHighlightKind::Write
    } else {
        DocumentHighlightKind::Read
    };
    let hits = word_hits_exec(line, sym);
    let ghost want = line_highlights(line@, k as int, sym@).map_values(
        |x: (Range, DocumentHighlightKind)| Some(x),
    );
    let mut j: usize = 0;
    while j < hits.len()
        invariant
            j <= hits@.len(),
            line@.len() <= MAX_DOCUMENT_CHARS,
            sym@.len() <= MAX_DOCUMENT_CHARS,
            k <= MAX_DOCUMENT_CHARS,
            hits@.map_values(|i: usize| i as int) == word_hits(line@, sym@, 0),
            forall|m: int| 0 <= m < hits@.len() ==> hits@[m] <= line@.len(),
            kind == (if is_write_line(line@) {
                DocumentHighlightKind::Write
            } else {
                DocumentHighlightKind::Read
            }),
            want == line_highlights(line@, k as int, sym@).map_values(
                |x: (Range, DocumentHighlightKind)| Some(x),
            ),
            highlights_view(out@) == highlights_view(old(out)@) + want.take(j as int),
        decreases hits@.len() - j,
    {
        assert(hits@.map_values(|i: usize| i as int)[j as int] == hits@[j as int] as int);
        let r = occurrence_range_exec(line, k, sym, hits[j]);
        let h = DocumentHighlight { range: r, kind: Some(kind) };
        let ghost before = highlights_view(out@);
        out.push(h);
        assert(highlights_view(out@) =~= before.push(Some((r, kind))));
        j = j + 1;
        assert(highlights_view(out@) =~= highlights_view(old(out)@) + want.take(j as int));
    }
    assert(want.take(j as int) =~= want);
}

/// Every whole-word occurrence of the symbol under the cursor, marked as a
/// write on a declaration line or a line with `=`, and as a read elsewhere.
pub fn get_document_highlights(content: &str, position: Position) -> (r: Vec<DocumentHighlight>)
    requires
        content@.len() <= MAX_DOCUMENT_CHARS,
        !search_splits_char(content@, position),
    ensures
        highlights_view(r@) == highlights(content@, position).map_values(
            |x: (Range, DocumentHighlightKind)| Some(x),
        ),
{
    let lines = bounded_lines(content);
    let mut out: Vec<DocumentHighlight> = Vec::new();
    let sym = match cursor_symbol_exec(&lines, position) {
        Some(s) => s,
        None => {
            return out;
        },
    };
    let ghost ls = view_all(lines@);
    let mut k: usize = 0;
    while k < lines.len()
        invariant
            k <= lines@.len(),
            ls == view_all(lines@),
            ls == text::lines(content@),
            lines@.len() <= MAX_DOCUMENT_CHARS,
            forall|m: int| 0 <= m < lines@.len() ==> (#[trigger] lines@[m])@.len() <= MAX_DOCUMENT_CHARS,
            sym@.len() <= MAX_DOCUMENT_CHARS,
            cursor_symbol(content@, position) == Some(sym@),
            highlights_view(out@) + highlights_from(ls, k as int, sym@).map_values(
                |x: (Range, DocumentHighlightKind)| Some(x),
            ) == highlights_from(ls, 0, sym@).map_values(
                |x: (Range, DocumentHighlightKind)| Some(x),
            ),
        decreases lines@.len() - k,
    {
        assert(ls[k as int] == lines@[k as int]@);
        let ghost before = highlights_view(out@);
        line_highlights_exec(lines[k].as_slice(), k, sym.as_slice(), &mut out);
        assert(highlights_view(out@) + highlights_from(ls, k + 1, sym@).map_values(
            |x: (Range, DocumentHighlightKind)| Some(x),
        ) =~= before + highlights_from(ls, k as int, sym@).map_values(
            |x: (Range, DocumentHighlightKind)| Some(x),
        ));
        k = k + 1;
    }
    assert(highlights_view(out@) + highlights_from(ls, k as int, sym@).map_values(
        |x: (Range, DocumentHighlightKind)| Some(x),
    ) =~= highlights_view(out@));
    out
}

} // verus!
