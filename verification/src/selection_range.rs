//! Selection ranges: what "expand selection" grows to from a position (the
//! word, the line, the block, the whole script).
use vstd::prelude::*;

use crate::document_symbol::byte_find;
use crate::lexer::TokenType;
use crate::on_type_formatting::{trimmed_tokens, trimmed_tokens_of};
use crate::references::bounded_lines;
use crate::semantic_tokens::{alphanumeric, is_alphanumeric, MAX_DOCUMENT_CHARS};
use crate::text::{self, find_first, trim_chars, utf8_len, utf8_len_sat, view_all};
use crate::text_edit::{Position, Range};

verus! {

/// A range and the larger range around it.
#[derive(Debug)]
pub struct SelectionRange {
    pub range: Range,
    pub parent: Option<Box<SelectionRange>>,
}

/// The ranges of a selection, from the innermost out.
pub open spec fn chain(s: SelectionRange) -> Seq<Range>
    decreases s,
{
    seq![s.range] + match s.parent {
        Some(p) => chain(*p),
        None => seq![],
    }
}

/// A character of a word: a letter, a digit, `_` or `$`.
pub open spec fn word_char(c: char) -> bool {
    alphanumeric(c) || c == '_' || c == '$'
}

/// The number of word characters right before position `p`.
pub open spec fn word_back(s: Seq<char>, p: int) -> nat
    decreases p,
{
    if 0 < p <= s.len() && word_char(s[p - 1]) {
        1 + word_back(s, p - 1)
    } else {
        0
    }
}

/// The number of word characters from position `p` on.
pub open spec fn word_fwd(s: Seq<char>, p: int) -> nat
    decreases s.len() - p,
{
    if 0 <= p < s.len() && word_char(s[p]) {
        1 + word_fwd(s, p + 1)
    } else {
        0
    }
}

/// The word around the position, in characters (the position itself when
/// it is past the line).
pub open spec fn word_range(line: Seq<char>, pos: Position) -> Range {
    let p = pos.character as int;
    if p >= line.len() {
        Range { start: pos, end: pos }
    } else {
        Range {
            start: Position { line: pos.line, character: (p - word_back(line, p)) as u32 },
            end: Position { line: pos.line, character: (p + word_fwd(line, p)) as u32 },
        }
    }
}

/// The trimmed text of line `k`, in bytes.
pub open spec fn line_range(line: Seq<char>, k: u32) -> Range {
    let t = text::trim(line);
    let b = byte_find(line, t);
    Range {
        start: Position { line: k, character: b as u32 },
        end: Position { line: k, character: (b + utf8_len(t)) as u32 },
    }
}

/// A token that opens a block for selection.
pub open spec fn opens(t: TokenType) -> bool {
    ||| t == TokenType::If
    ||| t == TokenType::While
    ||| t == TokenType::Function
    ||| t == TokenType::ButtonDef
    ||| t == TokenType::Extension
    ||| t == TokenType::Stage
}

/// A token that closes a block for selection.
pub open spec fn closes(t: TokenType) -> bool {
    ||| t == TokenType::EndIf
    ||| t == TokenType::EndWhile
    ||| t == TokenType::EndFunction
    ||| t == TokenType::EndButtonDef
    ||| t == TokenType::EndExtension
    ||| t == TokenType::EndStage
}

/// The line that opens the block around line `i`, going up with `depth`
/// blocks closed below (or the line asked about when there is none).
pub open spec fn block_start(toks: Seq<TokenType>, i: int, depth: int, dflt: int) -> int
    decreases i + 1,
{
    if i < 0 || i >= toks.len() {
        dflt
    } else if closes(toks[i]) {
        block_start(toks, i - 1, depth + 1, dflt)
    } else if opens(toks[i]) {
        if depth == 0 {
            i
        } else {
            block_start(toks, i - 1, depth - 1, dflt)
        }
    } else {
        block_start(toks, i - 1, depth, dflt)
    }
}

/// The line that closes the block around line `i`, going down.
pub open spec fn block_stop(toks: Seq<TokenType>, i: int, depth: int, dflt: int) -> int
    decreases toks.len() - i,
{
    if i < 0 || i >= toks.len() {
        dflt
    } else if opens(toks[i]) {
        block_stop(toks, i + 1, depth + 1, dflt)
    } else if closes(toks[i]) {
        if depth == 0 {
            i
        } else {
            block_stop(toks, i + 1, depth - 1, dflt)
        }
    } else {
        block_stop(toks, i + 1, depth, dflt)
    }
}

/// The lines of the block around line `k`.
pub open spec fn block_range(toks: Seq<TokenType>, k: int) -> Range {
    Range {
        start: Position { line: block_start(toks, k, 0, k) as u32, character: 0 },
        end: Position { line: (block_stop(toks, k, 0, k) + 1) as u32, character: 0 },
    }
}

/// The ranges "expand selection" goes through from `pos`.
pub open spec fn selection_chain(content: Seq<char>, pos: Position) -> Seq<Range> {
    let ls = text::lines(content);
    let doc = Range {
        start: Position { line: 0, character: 0 },
        end: Position { line: ls.len() as u32, character: 0 },
    };
    if pos.line < ls.len() {
        let line = ls[pos.line as int];
        seq![
            word_range(line, pos),
            line_range(line, pos.line),
            block_range(trimmed_tokens(ls), pos.line as int),
            doc,
        ]
    } else {
        seq![doc]
    }
}

fn word_char_exec(c: char) -> (r: bool)
    ensures
        r == word_char(c),
{
    is_alphanumeric(c) || c == '_' || c == '$'
}

fn get_word_range(line: &[char], pos: Position) -> (r: Range)
    requires
        line@.len() <= MAX_DOCUMENT_CHARS,
    ensures
        r == word_range(line@, pos),
{
    let p = pos.character as usize;
    if p >= line.len() {
        return Range { start: pos, end: pos };
    }
    let mut start = p;
    while start > 0 && word_char_exec(line[start - 1])
        invariant
            start <= p < line@.len(),
            word_back(line@, p as int) == (p - start) + word_back(line@, start as int),
        decreases start,
    {
        start = start - 1;
    }
    let mut end = p;
    while end < line.len() && word_char_exec(line[end])
        invariant
            p <= end <= line@.len(),
            word_fwd(line@, p as int) == (end - p) + word_fwd(line@, end as int),
        decreases line@.len() - end,
    {
        end = end + 1;
    }
    Range {
        start: Position { line: pos.line, character: start as u32 },
        end: Position { line: pos.line, character: end as u32 },
    }
}

fn get_line_range(line: &[char], k: u32) -> (r: Range)
    requires
        line@.len() <= MAX_DOCUMENT_CHARS,
    ensures
        r == line_range(line@, k),
{
    let t = trim_chars(line);
    proof {
        text::lemma_trim_len(line@);
        text::lemma_utf8_len_bound(t@);
    }
    let b: usize = match find_first(line, t) {
        Some(i) => {
            proof {
                text::lemma_utf8_len_bound(line@.take(i as int));
                assert(line@.subrange(0, i as int) =~= line@.take(i as int));
            }
            utf8_len_sat(&line[0..i])
        },
        None => 0,
    };
    let n = utf8_len_sat(t);
    Range {
        start: Position { line: k, character: b as u32 },
        end: Position { line: k, character: (b + n) as u32 },
    }
}

fn opens_exec(t: TokenType) -> (r: bool)
    ensures
        r == opens(t),
{
    t == TokenType::If || t == TokenType::While || t == TokenType::Function || t
        == TokenType::ButtonDef || t == TokenType::Extension || t == TokenType::Stage
}

fn closes_exec(t: TokenType) -> (r: bool)
    ensures
        r == closes(t),
{
    t == TokenType::EndIf || t == TokenType::EndWhile || t == TokenType::EndFunction || t
        == TokenType::EndButtonDef || t == TokenType::EndExtension || t == TokenType::EndStage
}

fn block_start_exec(toks: &Vec<TokenType>, k: usize) -> (r: usize)
    requires
        k < toks@.len(),
        toks@.len() <= MAX_DOCUMENT_CHARS,
    ensures
        r == block_start(toks@, k as int, 0, k as int),
        r <= k,
{
    let mut depth: usize = 0;
    let mut i: usize = k + 1;
    while i > 0
        invariant
            i <= k + 1,
            k < toks@.len() <= MAX_DOCUMENT_CHARS,
            depth <= k + 1 - i,
            block_start(toks@, k as int, 0, k as int) == block_start(toks@, i - 1, depth as int, k as int),
        decreases i,
    {
        let t = toks[i - 1];
        if closes_exec(t) {
            depth = depth + 1;
        } else if opens_exec(t) {
            if depth == 0 {
                return i - 1;
            }
            depth = depth - 1;
        }
        i = i - 1;
    }
    k
}

fn block_stop_exec(toks: &Vec<TokenType>, k: usize) -> (r: usize)
    requires
        k < toks@.len(),
        toks@.len() <= MAX_DOCUMENT_CHARS,
    ensures
        r == block_stop(toks@, k as int, 0, k as int),
        r < toks@.len(),
{
    let mut depth: usize = 0;
    let mut j: usize = k;
    while j < toks.len()
        invariant
            k <= j <= toks@.len(),
            toks@.len() <= MAX_DOCUMENT_CHARS,
            k < toks@.len(),
            depth <= j - k,
            block_stop(toks@, k as int, 0, k as int) == block_stop(toks@, j as int, depth as int, k as int),
        decreases toks@.len() - j,
    {
        let t = toks[j];
        if opens_exec(t) {
            depth = depth + 1;
        } else if closes_exec(t) {
            if depth == 0 {
                return j;
            }
            depth = depth - 1;
        }
        j = j + 1;
    }
    k
}

fn get_block_range(toks: &Vec<TokenType>, k: usize) -> (r: Range)
    requires
        k < toks@.len(),
        toks@.len() <= MAX_DOCUMENT_CHARS,
    ensures
        r == block_range(toks@, k as int),
{
    let start_line = block_start_exec(toks, k);
    let end_line = block_stop_exec(toks, k);
    Range {
        start: Position { line: start_line as u32, character: 0 },
        end: Position { line: (end_line + 1) as u32, character: 0 },
    }
}

/// The selection ranges at one position.
#[verifier::spinoff_prover]
#[verifier::rlimit(40)]
fn get_selection_range_at_position(lines: &Vec<Vec<char>>, toks: &Vec<TokenType>, pos: Position) -> (r: SelectionRange)
    requires
        toks@ == trimmed_tokens(view_all(lines@)),
        lines@.len() <= MAX_DOCUMENT_CHARS,
        forall|m: int| 0 <= m < lines@.len() ==> (#[trigger] lines@[m])@.len() <= MAX_DOCUMENT_CHARS,
    ensures
        chain(r) == selection_chain_of(view_all(lines@), pos),
{
    let doc = Range {
        start: Position { line: 0, character: 0 },
        end: Position { line: lines.len() as u32, character: 0 },
    };
    let k = pos.line as usize;
    if k >= lines.len() {
        let r = SelectionRange { range: doc, parent: None };
        assert(chain(r) =~= seq![doc]);
        return r;
    }
    let line = lines[k].as_slice();
    assert(view_all(lines@)[k as int] == line@);
    let w = get_word_range(line, pos);
    let l = get_line_range(line, pos.line);
    let b = get_block_range(toks, k);
    let d = SelectionRange { range: doc, parent: None };
    let bb = SelectionRange { range: b, parent: Some(Box::new(d)) };
    let lr = SelectionRange { range: l, parent: Some(Box::new(bb)) };
    let r = SelectionRange { range: w, parent: Some(Box::new(lr)) };
    assert(chain(d) =~= seq![doc]);
    assert(chain(bb) =~= seq![b, doc]);
    assert(chain(lr) =~= seq![l, b, doc]);
    assert(chain(r) =~= seq![w, l, b, doc]);
    r
}

/// The ranges of [`selection_chain`] over lines already split.
pub open spec fn selection_chain_of(ls: Seq<Seq<char>>, pos: Position) -> Seq<Range> {
    let doc = Range {
        start: Position { line: 0, character: 0 },
        end: Position { line: ls.len() as u32, character: 0 },
    };
    if pos.line < ls.len() {
        let line = ls[pos.line as int];
        seq![
            word_range(line, pos),
            line_range(line, pos.line),
            block_range(trimmed_tokens(ls), pos.line as int),
            doc,
        ]
    } else {
        seq![doc]
    }
}

/// For each position, the ranges "expand selection" grows through: the word
/// under it, the trimmed line, the enclosing block and the whole script (only
/// the whole script for a position past the last line).
pub fn get_selection_ranges(content: &str, positions: Vec<Position>) -> (r: Vec<SelectionRange>)
    requires
        content@.len() <= MAX_DOCUMENT_CHARS,
    ensures
        r@.len() == positions@.len(),
        forall|i: int|
            0 <= i < r@.len() ==> chain(#[trigger] r@[i]) == selection_chain(content@, positions@[i]),
{
    let lines = bounded_lines(content);
    let toks = trimmed_tokens_of(&lines);
    let mut out: Vec<SelectionRange> = Vec::new();
    let mut j: usize = 0;
    while j < positions.len()
        invariant
            j <= positions@.len(),
            view_all(lines@) == text::lines(content@),
            toks@ == trimmed_tokens(view_all(lines@)),
            lines@.len() <= MAX_DOCUMENT_CHARS,
            forall|m: int| 0 <= m < lines@.len() ==> (#[trigger] lines@[m])@.len() <= MAX_DOCUMENT_CHARS,
            out@.len() == j,
            forall|i: int|
                0 <= i < j ==> chain(#[trigger] out@[i]) == selection_chain(content@, positions@[i]),
        decreases positions@.len() - j,
    {
        let s = get_selection_range_at_position(&lines, &toks, positions[j]);
        out.push(s);
        j = j + 1;
    }
    out
}

} // verus!
