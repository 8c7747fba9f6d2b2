//! Linked editing: the keywords that open and close a block, edited together.
use vstd::prelude::*;

use crate::document_symbol::{name_range, name_range_exec};
use crate::lexer::TokenType;
use crate::on_type_formatting::{trimmed_tokens, trimmed_tokens_of};
use crate::references::bounded_lines;
use crate::semantic_tokens::MAX_DOCUMENT_CHARS;
use crate::text::{self, chars_of, starts_with_str, string_of, trim_chars, view_all};
use crate::text_edit::{Position, Range};

verus! {

/// Ranges edited together, and the pattern of a word typed into them.
#[derive(Debug)]
pub struct LinkedEditingRanges {
    pub ranges: Vec<Range>,
    pub word_pattern: Option<String>,
}

/// Linked ranges as plain values.
pub type LinkedView = (Seq<Range>, Option<Seq<char>>);

/// The view of linked ranges.
pub open spec fn linked_view(l: LinkedEditingRanges) -> LinkedView {
    (
        l.ranges@,
        match l.word_pattern {
            Some(p) => Some(p@),
            None => None,
        },
    )
}

/// The line that closes the block open before line `k`, with `depth` blocks
/// open: a line with `s` opens one more, a line with `e` closes one.
pub open spec fn close_forward(toks: Seq<TokenType>, k: int, depth: int, s: TokenType, e: TokenType) -> Option<int>
    decreases toks.len() - k,
{
    if k < 0 || k >= toks.len() {
        None
    } else if toks[k] == s {
        close_forward(toks, k + 1, depth + 1, s, e)
    } else if toks[k] == e {
        if depth - 1 == 0 {
            Some(k)
        } else {
            close_forward(toks, k + 1, depth - 1, s, e)
        }
    } else {
        close_forward(toks, k + 1, depth, s, e)
    }
}

/// The line that opens the block closed after line `k`, searching upwards.
pub open spec fn open_backward(toks: Seq<TokenType>, k: int, depth: int, s: TokenType, e: TokenType) -> Option<int>
    decreases k + 1,
{
    if k < 0 || k >= toks.len() {
        None
    } else if toks[k] == e {
        open_backward(toks, k - 1, depth + 1, s, e)
    } else if toks[k] == s {
        if depth - 1 == 0 {
            Some(k)
        } else {
            open_backward(toks, k - 1, depth - 1, s, e)
        }
    } else {
        open_backward(toks, k - 1, depth, s, e)
    }
}

/// The function definition that an `END_FUNCTION` below line `k` closes:
/// the match must also start with `FUNCTION `, else the search goes on.
pub open spec fn function_backward(ls: Seq<Seq<char>>, toks: Seq<TokenType>, k: int, depth: int) -> Option<int>
    decreases k + 1,
{
    if k < 0 || k >= toks.len() || k >= ls.len() {
        None
    } else if toks[k] == TokenType::EndFunction {
        function_backward(ls, toks, k - 1, depth + 1)
    } else if toks[k] == TokenType::Function {
        if depth - 1 == 0 && text::starts_with(text::trim(ls[k]), "FUNCTION "@) {
            Some(k)
        } else {
            function_backward(ls, toks, k - 1, depth - 1)
        }
    } else {
        function_backward(ls, toks, k - 1, depth)
    }
}

/// The nearest string block above line `k`.
pub open spec fn string_block_backward(toks: Seq<TokenType>, k: int) -> Option<int>
    decreases k + 1,
{
    if k < 0 || k >= toks.len() {
        None
    } else if toks[k] == TokenType::StringBlock || toks[k] == TokenType::StringLnBlock {
        Some(k)
    } else {
        string_block_backward(toks, k - 1)
    }
}

/// The name after `FUNCTION ` on a trimmed line.
pub open spec fn function_text(t: Seq<char>) -> Seq<char> {
    text::trim(t.skip(9))
}

/// Where the function name stands on a `FUNCTION` line.
pub open spec fn function_name_range(line: Seq<char>, k: int) -> Range {
    let t = text::trim(line);
    if text::starts_with(t, "FUNCTION "@) {
        name_range(line, k, function_text(t))
    } else {
        Range {
            start: Position { line: k as u32, character: 0 },
            end: Position { line: k as u32, character: 0 },
        }
    }
}

/// The keyword on the opening line and `END_` keyword on the closing line.
pub open spec fn keyword_pair(ls: Seq<Seq<char>>, a: int, b: int, kw: Seq<char>) -> LinkedView {
    (seq![name_range(ls[a], a, kw), name_range(ls[b], b, "END_"@ + kw)], None)
}

/// The block opened on line `k` and its closing line.
pub open spec fn block_pair(ls: Seq<Seq<char>>, toks: Seq<TokenType>, k: int, s: TokenType, e: TokenType, kw: Seq<char>) -> Option<LinkedView> {
    match close_forward(toks, k + 1, 1, s, e) {
        Some(j) => Some(keyword_pair(ls, k, j, kw)),
        None => None,
    }
}

/// The block closed on line `k` and its opening line.
pub open spec fn block_pair_reverse(ls: Seq<Seq<char>>, toks: Seq<TokenType>, k: int, s: TokenType, e: TokenType, kw: Seq<char>) -> Option<LinkedView> {
    match open_backward(toks, k - 1, 1, s, e) {
        Some(j) => Some(keyword_pair(ls, j, k, kw)),
        None => None,
    }
}

/// The function defined on line `k`, when it is closed.
pub open spec fn function_pair(ls: Seq<Seq<char>>, toks: Seq<TokenType>, k: int) -> Option<LinkedView> {
    let t = text::trim(ls[k]);
    if text::starts_with(t, "FUNCTION "@) {
        match close_forward(toks, k + 1, 1, TokenType::Function, TokenType::EndFunction) {
            Some(_) => Some((seq![function_name_range(ls[k], k)], Some(function_text(t)))),
            None => None,
        }
    } else {
        None
    }
}

/// The function closed on line `k`.
pub open spec fn function_pair_reverse(ls: Seq<Seq<char>>, toks: Seq<TokenType>, k: int) -> Option<LinkedView> {
    match function_backward(ls, toks, k - 1, 1) {
        Some(j) => Some(
            (seq![function_name_range(ls[j], j)], Some(function_text(text::trim(ls[j])))),
        ),
        None => None,
    }
}

/// The string block closed on line `k`.
pub open spec fn string_block_reverse(ls: Seq<Seq<char>>, toks: Seq<TokenType>, k: int) -> Option<LinkedView> {
    match string_block_backward(toks, k - 1) {
        Some(j) => Some(keyword_pair(ls, j, k, "STRING"@)),
        None => None,
    }
}

/// The linked ranges for the line at `pos`.
pub open spec fn linked_ranges(content: Seq<char>, pos: Position) -> Option<LinkedView> {
    let ls = text::lines(content);
    let toks = trimmed_tokens(ls);
    let k = pos.line as int;
    if k >= ls.len() {
        None
    } else {
        match toks[k] {
            TokenType::If => block_pair(ls, toks, k, TokenType::If, TokenType::EndIf, "IF"@),
            TokenType::EndIf => block_pair_reverse(ls, toks, k, TokenType::If, TokenType::EndIf, "IF"@),
            TokenType::While => block_pair(ls, toks, k, TokenType::While, TokenType::EndWhile, "WHILE"@),
            TokenType::EndWhile => block_pair_reverse(ls, toks, k, TokenType::While, TokenType::EndWhile, "WHILE"@),
            TokenType::Function => function_pair(ls, toks, k),
            TokenType::EndFunction => function_pair_reverse(ls, toks, k),
            TokenType::Extension => block_pair(ls, toks, k, TokenType::Extension, TokenType::EndExtension, "EXTENSION"@),
            TokenType::EndExtension => block_pair_reverse(ls, toks, k, TokenType::Extension, TokenType::EndExtension, "EXTENSION"@),
            TokenType::Stage => block_pair(ls, toks, k, TokenType::Stage, TokenType::EndStage, "STAGE"@),
            TokenType::EndStage => block_pair_reverse(ls, toks, k, TokenType::Stage, TokenType::EndStage, "STAGE"@),
            TokenType::ButtonDef => block_pair(ls, toks, k, TokenType::ButtonDef, TokenType::EndButtonDef, "BUTTON_DEF"@),
            TokenType::EndButtonDef => block_pair_reverse(ls, toks, k, TokenType::ButtonDef, TokenType::EndButtonDef, "BUTTON_DEF"@),
            TokenType::StringBlock => block_pair(ls, toks, k, TokenType::StringBlock, TokenType::EndString, "STRING"@),
            TokenType::StringLnBlock => block_pair(ls, toks, k, TokenType::StringLnBlock, TokenType::EndString, "STRING"@),
            TokenType::EndString => string_block_reverse(ls, toks, k),
            TokenType::RemBlock => block_pair(ls, toks, k, TokenType::RemBlock, TokenType::EndRemBlock, "REM_BLOCK"@),
            TokenType::EndRemBlock => block_pair_reverse(ls, toks, k, TokenType::RemBlock, TokenType::EndRemBlock, "REM_BLOCK"@),
            _ => None,
        }
    }
}

fn close_forward_exec(toks: &Vec<TokenType>, from: usize, s: TokenType, e: TokenType) -> (r: Option<usize>)
    requires
        from <= toks@.len(),
        toks@.len() <= MAX_DOCUMENT_CHARS,
    ensures
        match r {
            Some(j) => close_forward(toks@, from as int, 1, s, e) == Some(j as int) && from <= j < toks@.len(),
            None => close_forward(toks@, from as int, 1, s, e) is None,
        },
{
    let mut depth: usize = 1;
    let mut k: usize = from;
    while k < toks.len()
        invariant
            from <= k <= toks@.len(),
            toks@.len() <= MAX_DOCUMENT_CHARS,
            1 <= depth <= k - from + 1,
            close_forward(toks@, from as int, 1, s, e) == close_forward(toks@, k as int, depth as int, s, e),
        decreases toks@.len() - k,
    {
        let t = toks[k];
        if t == s {
            depth = depth + 1;
        } else if t == e {
            if depth == 1 {
                return Some(k);
            }
            depth = depth - 1;
        }
        k = k + 1;
    }
    None
}

fn open_backward_exec(toks: &Vec<TokenType>, end: usize, s: TokenType, e: TokenType) -> (r: Option<usize>)
    requires
        end <= toks@.len(),
        toks@.len() <= MAX_DOCUMENT_CHARS,
    ensures
        match r {
            Some(j) => open_backward(toks@, end - 1, 1, s, e) == Some(j as int) && j < end,
            None => open_backward(toks@, end - 1, 1, s, e) is None,
        },
{
    let mut depth: usize = 1;
    let mut k: usize = end;
    while k > 0
        invariant
            k <= end <= toks@.len(),
            toks@.len() <= MAX_DOCUMENT_CHARS,
            1 <= depth <= end - k + 1,
            open_backward(toks@, end - 1, 1, s, e) == open_backward(toks@, k - 1, depth as int, s, e),
        decreases k,
    {
        let t = toks[k - 1];
        if t == e {
            depth = depth + 1;
        } else if t == s {
            if depth == 1 {
                return Some(k - 1);
            }
            depth = depth - 1;
        }
        k = k - 1;
    }
    None
}

fn function_backward_exec(lines: &Vec<Vec<char>>, toks: &Vec<TokenType>, end: usize) -> (r: Option<usize>)
    requires
        end <= toks@.len(),
        toks@.len() == lines@.len(),
        lines@.len() <= MAX_DOCUMENT_CHARS,
    ensures
        match r {
            Some(j) => function_backward(view_all(lines@), toks@, end - 1, 1) == Some(j as int) && j < end,
            None => function_backward(view_all(lines@), toks@, end - 1, 1) is None,
        },
{
    let mut depth: i64 = 1;
    let mut k: usize = end;
    while k > 0
        invariant
            k <= end <= toks@.len(),
            toks@.len() == lines@.len(),
            lines@.len() <= MAX_DOCUMENT_CHARS,
            -((end - k) as int) <= depth <= end - k + 1,
            function_backward(view_all(lines@), toks@, end - 1, 1) == function_backward(
                view_all(lines@),
                toks@,
                k - 1,
                depth as int,
            ),
        decreases k,
    {
        let t = toks[k - 1];
        if t == TokenType::EndFunction {
            depth = depth + 1;
        } else if t == TokenType::Function {
            assert(view_all(lines@)[k - 1] == lines@[k - 1]@);
            if depth == 1 && starts_with_str(trim_chars(lines[k - 1].as_slice()), "FUNCTION ") {
                return Some(k - 1);
            }
            depth = depth - 1;
        }
        k = k - 1;
    }
    None
}

fn string_block_backward_exec(toks: &Vec<TokenType>, end: usize) -> (r: Option<usize>)
    requires
        end <= toks@.len(),
    ensures
        match r {
            Some(j) => string_block_backward(toks@, end - 1) == Some(j as int) && j < end,
            None => string_block_backward(toks@, end - 1) is None,
        },
{
    let mut k: usize = end;
    while k > 0
        invariant
            k <= end <= toks@.len(),
            string_block_backward(toks@, end - 1) == string_block_backward(toks@, k - 1),
        decreases k,
    {
        let t = toks[k - 1];
        if t == TokenType::StringBlock || t == TokenType::StringLnBlock {
            return Some(k - 1);
        }
        k = k - 1;
    }
    None
}

/// The name after `FUNCTION ` on a trimmed line.
fn function_text_exec(t: &[char]) -> (r: &[char])
    requires
        text::starts_with(t@, "FUNCTION "@),
    ensures
        r@ == function_text(t@),
        r@.len() <= t@.len(),
{
    proof {
        reveal_strlit("FUNCTION ");
    }
    let rest = &t[9..t.len()];
    assert(rest@ =~= t@.skip(9));
    proof {
        text::lemma_trim_len(rest@);
    }
    trim_chars(rest)
}

fn function_name_range_exec(line: &[char], k: usize) -> (r: Range)
    requires
        line@.len() <= MAX_DOCUMENT_CHARS,
        k <= MAX_DOCUMENT_CHARS,
    ensures
        r == function_name_range(line@, k as int),
{
    let t = trim_chars(line);
    proof {
        text::lemma_trim_len(line@);
    }
    if starts_with_str(t, "FUNCTION ") {
        name_range_exec(line, k, function_text_exec(t))
    } else {
        Range {
            start: Position { line: k as u32, character: 0 },
            end: Position { line: k as u32, character: 0 },
        }
    }
}

fn keyword_pair_exec(lines: &Vec<Vec<char>>, a: usize, b: usize, kw: &str) -> (r: LinkedEditingRanges)
    requires
        a < lines@.len(),
        b < lines@.len(),
        kw@.len() <= 16,
        lines@.len() <= MAX_DOCUMENT_CHARS,
        forall|m: int| 0 <= m < lines@.len() ==> (#[trigger] lines@[m])@.len() <= MAX_DOCUMENT_CHARS,
    ensures
        linked_view(r) == keyword_pair(view_all(lines@), a as int, b as int, kw@),
{
    assert(view_all(lines@)[a as int] == lines@[a as int]@);
    assert(view_all(lines@)[b as int] == lines@[b as int]@);
    let k = chars_of(kw);
    proof {
        reveal_strlit("END_");
    }
    let mut end_kw = chars_of("END_");
    crate::on_type_formatting::push_all(&mut end_kw, k.as_slice());
    let ra = name_range_exec(lines[a].as_slice(), a, k.as_slice());
    let rb = name_range_exec(lines[b].as_slice(), b, end_kw.as_slice());
    let ranges = vec![ra, rb];
    assert(ranges@ =~= seq![ra, rb]);
    LinkedEditingRanges { ranges, word_pattern: None }
}

/// The keywords of the block on the line at `position` that are edited
/// together: the opening keyword and the `END_` keyword that closes it (found
/// by counting nested blocks of the same kind), or for a function its name
/// with the name as the word pattern.
pub fn get_linked_editing_ranges(content: &str, position: Position) -> (r: Option<LinkedEditingRanges>)
    requires
        content@.len() <= MAX_DOCUMENT_CHARS,
    ensures
        match r {
            Some(l) => linked_ranges(content@, position) == Some(linked_view(l)),
            None => linked_ranges(content@, position) is None,
        },
{
    let lines = bounded_lines(content);
    let toks = trimmed_tokens_of(&lines);
    let ghost ls = view_all(lines@);
    let k = position.line as usize;
    if k >= lines.len() {
        return None;
    }
    proof {
        reveal_strlit("IF");
        reveal_strlit("WHILE");
        reveal_strlit("EXTENSION");
        reveal_strlit("STAGE");
        reveal_strlit("BUTTON_DEF");
        reveal_strlit("STRING");
        reveal_strlit("REM_BLOCK");
    }
    let t = toks[k];
    let (s, e, kw, forward): (TokenType, TokenType, &str, bool) = match t {
        TokenType::If => (TokenType::If, TokenType::EndIf, "IF", true),
        TokenType::EndIf => (TokenType::If, TokenType::EndIf, "IF", false),
        TokenType::While => (TokenType::While, TokenType::EndWhile, "WHILE", true),
        TokenType::EndWhile => (TokenType::While, TokenType::EndWhile, "WHILE", false),
        TokenType::Extension => (TokenType::Extension, TokenType::EndExtension, "EXTENSION", true),
        TokenType::EndExtension => (TokenType::Extension, TokenType::EndExtension, "EXTENSION", false),
        TokenType::Stage => (TokenType::Stage, TokenType::EndStage, "STAGE", true),
        TokenType::EndStage => (TokenType::Stage, TokenType::EndStage, "STAGE", false),
        TokenType::ButtonDef => (TokenType::ButtonDef, TokenType::EndButtonDef, "BUTTON_DEF", true),
        TokenType::EndButtonDef => (TokenType::ButtonDef, TokenType::EndButtonDef, "BUTTON_DEF", false),
        TokenType::StringBlock => (TokenType::StringBlock, TokenType::EndString, "STRING", true),
        TokenType::StringLnBlock => (TokenType::StringLnBlock, TokenType::EndString, "STRING", true),
        TokenType::RemBlock => (TokenType::RemBlock, TokenType::EndRemBlock, "REM_BLOCK", true),
        TokenType::EndRemBlock => (TokenType::RemBlock, TokenType::EndRemBlock, "REM_BLOCK", false),
        TokenType::Function => {
            let line = lines[k].as_slice();
            assert(ls[k as int] == line@);
            let tt = trim_chars(line);
            proof {
                text::lemma_trim_len(line@);
            }
            if !starts_with_str(tt, "FUNCTION ") {
                return None;
            }
            return match close_forward_exec(&toks, k + 1, TokenType::Function, TokenType::EndFunction) {
                Some(_) => {
                    let range = function_name_range_exec(line, k);
                    let ranges = vec![range];
                    assert(ranges@ =~= seq![range]);
                    let name = function_text_exec(tt);
                    Some(LinkedEditingRanges { ranges, word_pattern: Some(string_of(name)) })
                },
                None => None,
            };
        },
        TokenType::EndFunction => {
            return match function_backward_exec(&lines, &toks, k) {
                Some(j) => {
                    let line = lines[j].as_slice();
                    assert(ls[j as int] == line@);
                    let tt = trim_chars(line);
                    proof {
                        text::lemma_trim_len(line@);
                        lemma_function_backward(ls, toks@, k - 1, 1);
                    }
                    let range = function_name_range_exec(line, j);
                    let ranges = vec![range];
                    assert(ranges@ =~= seq![range]);
                    let name = function_text_exec(tt);
                    Some(LinkedEditingRanges { ranges, word_pattern: Some(string_of(name)) })
                },
                None => None,
            };
        },
        TokenType::EndString => {
            return match string_block_backward_exec(&toks, k) {
                Some(j) => Some(keyword_pair_exec(&lines, j, k, "STRING")),
                None => None,
            };
        },
        _ => {
            return None;
        },
    };
    if forward {
        match close_forward_exec(&toks, k + 1, s, e) {
            Some(j) => Some(keyword_pair_exec(&lines, k, j, kw)),
            None => None,
        }
    } else {
        match open_backward_exec(&toks, k, s, e) {
            Some(j) => Some(keyword_pair_exec(&lines, j, k, kw)),
            None => None,
        }
    }
}

pub proof fn lemma_function_backward(ls: Seq<Seq<char>>, toks: Seq<TokenType>, k: int, depth: int)
    ensures
        match function_backward(ls, toks, k, depth) {
            Some(j) => 0 <= j <= k && j < ls.len() && text::starts_with(text::trim(ls[j]), "FUNCTION "@),
            None => true,
        },
    decreases k + 1,
{
    if k >= 0 && k < toks.len() && k < ls.len() {
        if toks[k] == TokenType::EndFunction {
            lemma_function_backward(ls, toks, k - 1, depth + 1);
        } else if toks[k] == TokenType::Function {
            lemma_function_backward(ls, toks, k - 1, depth - 1);
        } else {
            lemma_function_backward(ls, toks, k - 1, depth);
        }
    }
}

} // verus!
