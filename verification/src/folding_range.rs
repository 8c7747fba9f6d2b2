//! Folding ranges: the blocks of a script that an editor can collapse.
use vstd::prelude::*;

use crate::lexer::{tokenize_spec, tokenize_trimmed_chars, TokenType};
use crate::text::{self, chars_of, split_lines, trim_chars, view_all};

verus! {

/// What a folded range holds.
#[derive(Debug, Clone, Copy, PartialEq, Eq, Structural)]
pub enum FoldingRangeKind {
    Comment,
    Region,
}

/// A block from the line that opens it to the line that ends it.
#[derive(Debug, Clone)]
pub struct FoldingRange {
    pub start_line: u32,
    pub end_line: u32,
    pub kind: FoldingRangeKind,
    pub collapsed_text: String,
}

impl View for FoldingRange {
    type V = (u32, u32, FoldingRangeKind, Seq<char>);

    open spec fn view(&self) -> Self::V {
        (self.start_line, self.end_line, self.kind, self.collapsed_text@)
    }
}

/// The token kind of each line (`tokenize_line` on every line).
pub open spec fn line_tokens(ls: Seq<Seq<char>>) -> Seq<TokenType> {
    ls.map_values(|l: Seq<char>| tokenize_spec(text::trim(l)))
}

/// The block a token opens: the token that ends it, the kind of the range
/// and the text an editor shows in its place.
pub open spec fn fold_opener(t: TokenType) -> Option<(TokenType, FoldingRangeKind, Seq<char>)> {
    match t {
        TokenType::Function => Some((TokenType::EndFunction, FoldingRangeKind::Region, "function..."@)),
        TokenType::If => Some((TokenType::EndIf, FoldingRangeKind::Region, "if..."@)),
        TokenType::While => Some((TokenType::EndWhile, FoldingRangeKind::Region, "while..."@)),
        TokenType::Extension => Some(
            (TokenType::EndExtension, FoldingRangeKind::Region, "extension..."@),
        ),
        TokenType::Stage => Some((TokenType::EndStage, FoldingRangeKind::Region, "stage..."@)),
        TokenType::ButtonDef => Some(
            (TokenType::EndButtonDef, FoldingRangeKind::Region, "button..."@),
        ),
        TokenType::RemBlock => Some(
            (TokenType::EndRemBlock, FoldingRangeKind::Comment, "/* ... */"@),
        ),
        TokenType::StringBlock | TokenType::StringLnBlock => Some(
            (TokenType::EndString, FoldingRangeKind::Region, "string..."@),
        ),
        _ => None,
    }
}

/// The first index from `j` on whose token is `e`.
pub open spec fn find_end_from(toks: Seq<TokenType>, j: int, e: TokenType) -> Option<int>
    decreases toks.len() - j,
{
    if j < 0 || j >= toks.len() {
        None
    } else if toks[j] == e {
        Some(j)
    } else {
        find_end_from(toks, j + 1, e)
    }
}

pub proof fn lemma_find_end_from(toks: Seq<TokenType>, j: int, e: TokenType)
    requires
        0 <= j,
    ensures
        match find_end_from(toks, j, e) {
            Some(k) => j <= k < toks.len() && toks[k] == e && forall|m: int|
                j <= m < k ==> toks[m] != e,
            None => forall|m: int| j <= m < toks.len() ==> toks[m] != e,
        },
    decreases toks.len() - j,
{
    if j < toks.len() && toks[j] != e {
        lemma_find_end_from(toks, j + 1, e);
    }
}

/// The ranges found from line `i` on: a line that opens a block folds up to
/// the first later line that ends it, and the search goes on after that line;
/// a block that is never ended folds nothing.
pub open spec fn folds_from(toks: Seq<TokenType>, i: int) -> Seq<
    (u32, u32, FoldingRangeKind, Seq<char>),
>
    decreases toks.len() - i,
{
    if i < 0 || i >= toks.len() {
        seq![]
    } else {
        match fold_opener(toks[i]) {
            Some((e, k, t)) => match find_end_from(toks, i + 1, e) {
                Some(j) => {
                    proof {
                        lemma_find_end_from(toks, i + 1, e);
                    }
                    seq![(i as u32, j as u32, k, t)] + folds_from(toks, j + 1)
                },
                None => folds_from(toks, i + 1),
            },
            None => folds_from(toks, i + 1),
        }
    }
}

/// The folding ranges of a script, from its first line on.
pub open spec fn folding_ranges(content: Seq<char>) -> Seq<
    (u32, u32, FoldingRangeKind, Seq<char>),
> {
    folds_from(line_tokens(text::lines(content)), 0)
}

/// The token kind of every line.
pub fn tokens_of_lines(lines: &Vec<Vec<char>>) -> (r: Vec<TokenType>)
    ensures
        r@ == line_tokens(view_all(lines@)),
{
    let mut r: Vec<TokenType> = Vec::new();
    let mut k: usize = 0;
    while k < lines.len()
        invariant
            k <= lines@.len(),
            r@ == line_tokens(view_all(lines@)).take(k as int),
        decreases lines@.len() - k,
    {
        let t = trim_chars(lines[k].as_slice());
        let tok = tokenize_trimmed_chars(t);
        r.push(tok);
        k = k + 1;
        assert(r@ =~= line_tokens(view_all(lines@)).take(k as int));
    }
    assert(r@ =~= line_tokens(view_all(lines@)));
    r
}

fn fold_opener_exec(t: TokenType) -> (r: Option<(TokenType, FoldingRangeKind, &'static str)>)
    ensures
        match r {
            Some((e, k, s)) => fold_opener(t) == Some((e, k, s@)),
            None => fold_opener(t) is None,
        },
{
    match t {
        TokenType::Function => Some((TokenType::EndFunction, FoldingRangeKind::Region, "function...")),
        TokenType::If => Some((TokenType::EndIf, FoldingRangeKind::Region, "if...")),
        TokenType::While => Some((TokenType::EndWhile, FoldingRangeKind::Region, "while...")),
        TokenType::Extension => Some(
            (TokenType::EndExtension, FoldingRangeKind::Region, "extension..."),
        ),
        TokenType::Stage => Some((TokenType::EndStage, FoldingRangeKind::Region, "stage...")),
        TokenType::ButtonDef => Some(
            (TokenType::EndButtonDef, FoldingRangeKind::Region, "button..."),
        ),
        TokenType::RemBlock => Some((TokenType::EndRemBlock, FoldingRangeKind::Comment, "/* ... */")),
        TokenType::StringBlock | TokenType::StringLnBlock => Some(
            (TokenType::EndString, FoldingRangeKind::Region, "string..."),
        ),
        _ => None,
    }
}

/// The first line after `start` whose token is `end_type`.
fn find_matching_end(toks: &Vec<TokenType>, start: usize, end_type: TokenType) -> (r: Option<
    usize,
>)
    ensures
        match r {
            Some(j) => find_end_from(toks@, start + 1, end_type) == Some(j as int),
            None => find_end_from(toks@, start + 1, end_type) is None,
        },
{
    let mut j = start;
    if j >= toks.len() {
        return None;
    }
    j = j + 1;
    while j < toks.len()
        invariant
            start < j,
            find_end_from(toks@, start + 1, end_type) == find_end_from(toks@, j as int, end_type),
        decreases toks@.len() - j,
    {
        if toks[j] == end_type {
            return Some(j);
        }
        j = j + 1;
    }
    None
}

/// The blocks of `content` that an editor can fold: functions, conditions,
/// loops, extensions, stages, button definitions, string blocks and comment
/// blocks, each from its opening line to the first line that ends it.
pub fn get_folding_ranges(content: &str) -> (r: Vec<FoldingRange>)
    ensures
        r@.map_values(|f: FoldingRange| f@) == folding_ranges(content@),
{
    let c = chars_of(content);
    let lines = split_lines(c.as_slice());
    let toks = tokens_of_lines(&lines);
    let mut ranges: Vec<FoldingRange> = Vec::new();
    let mut i: usize = 0;
    while i < toks.len()
        invariant
            i <= toks@.len(),
            toks@ == line_tokens(text::lines(c@)),
            c@ == content@,
            ranges@.map_values(|f: FoldingRange| f@) + folds_from(toks@, i as int) == folds_from(
                toks@,
                0,
            ),
        decreases toks@.len() - i,
    {
        let ghost before = ranges@.map_values(|f: FoldingRange| f@);
        match fold_opener_exec(toks[i]) {
            Some((e, k, t)) => match find_matching_end(&toks, i, e) {
                Some(j) => {
                    proof {
                        lemma_find_end_from(toks@, i + 1, e);
                    }
                    let f = FoldingRange {
                        start_line: i as u32,
                        end_line: j as u32,
                        kind: k,
                        collapsed_text: t.to_owned(),
                    };
                    ranges.push(f);
                    assert(ranges@.map_values(|f: FoldingRange| f@) =~= before.push(f@));
                    assert(before.push(f@) + folds_from(toks@, j + 1) =~= before + folds_from(
                        toks@,
                        i as int,
                    ));
                    i = j + 1;
                },
                None => {
                    i = i + 1;
                },
            },
            None => {
                i = i + 1;
            },
        }
    }
    ranges
}

} // verus!
