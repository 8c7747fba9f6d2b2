//! Document symbols: the outline of a script (its functions, variables,
//! extensions and constants).
use vstd::prelude::*;

use crate::code_lens::strip_parens;
use crate::folding_range::{find_end_from, line_tokens, lemma_find_end_from, tokens_of_lines};
use crate::lexer::TokenType;
use crate::on_type_formatting::push_all;
use crate::semantic_tokens::MAX_DOCUMENT_CHARS;
use crate::text::{
    self, before_char, chars_of, find_first, split_lines, split_words, starts_with_str, string_of,
    trim_chars, utf8_len, utf8_len_sat, view_all,
};
use crate::text_edit::{Position, Range};

verus! {

/// What a symbol is.
#[derive(Debug, Clone, Copy, PartialEq, Eq, Structural)]
pub enum SymbolKind {
    Function,
    Variable,
    Module,
    Constant,
}

/// An entry of the outline: its name, a word on what it is, its kind, the
/// lines it spans and the place of its name.
#[derive(Debug)]
pub struct DocumentSymbol {
    pub name: String,
    pub detail: Option<String>,
    pub kind: SymbolKind,
    pub range: Range,
    pub selection_range: Range,
}

/// A symbol as plain values.
pub type SymbolView = (Seq<char>, Option<Seq<char>>, SymbolKind, Range, Range);

impl View for DocumentSymbol {
    type V = SymbolView;

    open spec fn view(&self) -> SymbolView {
        (
            self.name@,
            match self.detail {
                Some(d) => Some(d@),
                None => None,
            },
            self.kind,
            self.range,
            self.selection_range,
        )
    }
}

/// The first whitespace-separated word of `s`.
pub open spec fn first_word(s: Seq<char>) -> Option<Seq<char>> {
    let w = text::words(s);
    if w.len() > 0 {
        Some(w[0])
    } else {
        None
    }
}

/// The first word after `prefix`, when the line starts with it.
pub open spec fn word_after(t: Seq<char>, prefix: Seq<char>) -> Option<Seq<char>> {
    if text::starts_with(t, prefix) {
        first_word(text::trim(t.skip(prefix.len() as int)))
    } else {
        None
    }
}

/// The name a function definition line defines.
pub open spec fn function_name(t: Seq<char>) -> Option<Seq<char>> {
    match word_after(t, "FUNCTION"@) {
        Some(w) => Some(strip_parens(w)),
        None => None,
    }
}

/// The name a declaration (`VAR $x = ...`) or assignment (`$x = ...`) line
/// sets.
pub open spec fn variable_name(t: Seq<char>) -> Option<Seq<char>> {
    if text::starts_with(t, "VAR"@) {
        word_after(t, "VAR"@)
    } else {
        first_word(text::trim(t.take(text::index_of_char(t, '=') as int)))
    }
}

/// The byte position of the first `name` in `line` (0 when there is none).
pub open spec fn byte_find(line: Seq<char>, name: Seq<char>) -> nat {
    match text::first_occurrence(line, name) {
        Some(i) => utf8_len(line.take(i)),
        None => 0,
    }
}

/// Where `name` stands on line `k`.
pub open spec fn name_range(line: Seq<char>, k: int, name: Seq<char>) -> Range {
    let b = byte_find(line, name);
    Range {
        start: Position { line: k as u32, character: b as u32 },
        end: Position { line: k as u32, character: (b + utf8_len(name)) as u32 },
    }
}

/// The byte length of line `j` (0 when there is none).
pub open spec fn line_bytes(ls: Seq<Seq<char>>, j: int) -> nat {
    if 0 <= j < ls.len() {
        utf8_len(ls[j])
    } else {
        0
    }
}

/// The line that ends the block opened on line `i`, or `i` itself.
pub open spec fn block_end(toks: Seq<TokenType>, i: int, e: TokenType) -> int {
    match find_end_from(toks, i + 1, e) {
        Some(j) => j,
        None => i,
    }
}

/// A symbol of a block from line `i` to its end.
#[verifier::opaque]
pub open spec fn block_symbol(ls: Seq<Seq<char>>, i: int, end: int, name: Seq<char>, detail: Seq<char>, kind: SymbolKind) -> SymbolView {
    (
        name,
        Some(detail),
        kind,
        Range {
            start: Position { line: i as u32, character: 0 },
            end: Position { line: end as u32, character: line_bytes(ls, end) as u32 },
        },
        name_range(ls[i], i, name),
    )
}

/// A symbol of line `i` alone.
#[verifier::opaque]
pub open spec fn line_symbol(ls: Seq<Seq<char>>, i: int, name: Seq<char>, detail: Seq<char>, kind: SymbolKind) -> SymbolView {
    (
        name,
        Some(detail),
        kind,
        Range {
            start: Position { line: i as u32, character: 0 },
            end: Position { line: i as u32, character: utf8_len(ls[i]) as u32 },
        },
        name_range(ls[i], i, name),
    )
}

/// The symbol line `i` starts, if any, and the line to look at after it: a
/// function or extension spans up to the line that ends it.
pub open spec fn symbol_at(ls: Seq<Seq<char>>, toks: Seq<TokenType>, i: int) -> (Option<SymbolView>, int) {
    let t = text::trim(ls[i]);
    let tt = toks[i];
    if tt == TokenType::Function {
        match function_name(t) {
            Some(n) => {
                let e = block_end(toks, i, TokenType::EndFunction);
                (Some(block_symbol(ls, i, e, n, "Function"@, SymbolKind::Function)), e + 1)
            },
            None => (None, i + 1),
        }
    } else if tt == TokenType::Declaration || tt == TokenType::Assignment {
        match variable_name(t) {
            Some(n) => (Some(line_symbol(ls, i, n, "Variable"@, SymbolKind::Variable)), i + 1),
            None => (None, i + 1),
        }
    } else if tt == TokenType::Extension {
        match word_after(t, "EXTENSION"@) {
            Some(n) => {
                let e = block_end(toks, i, TokenType::EndExtension);
                (Some(block_symbol(ls, i, e, n, "Extension"@, SymbolKind::Module)), e + 1)
            },
            None => (None, i + 1),
        }
    } else if tt == TokenType::Define {
        match word_after(t, "DEFINE"@) {
            Some(n) => (Some(line_symbol(ls, i, n, "Constant"@, SymbolKind::Constant)), i + 1),
            None => (None, i + 1),
        }
    } else {
        (None, i + 1)
    }
}

pub proof fn lemma_symbol_at_advances(ls: Seq<Seq<char>>, toks: Seq<TokenType>, i: int)
    requires
        0 <= i < toks.len(),
    ensures
        i < symbol_at(ls, toks, i).1 <= toks.len(),
{
    lemma_find_end_from(toks, i + 1, TokenType::EndFunction);
    lemma_find_end_from(toks, i + 1, TokenType::EndExtension);
}

/// The symbols from line `i` on.
pub open spec fn symbols_from(ls: Seq<Seq<char>>, toks: Seq<TokenType>, i: int) -> Seq<SymbolView>
    decreases ls.len() - i,
{
    if i < 0 || i >= ls.len() || toks.len() != ls.len() {
        seq![]
    } else {
        let r = symbol_at(ls, toks, i);
        proof {
            lemma_symbol_at_advances(ls, toks, i);
        }
        match r.0 {
            Some(x) => seq![x] + symbols_from(ls, toks, r.1),
            None => symbols_from(ls, toks, r.1),
        }
    }
}

/// The outline of a script.
pub open spec fn document_symbols(content: Seq<char>) -> Seq<SymbolView> {
    let ls = text::lines(content);
    symbols_from(ls, line_tokens(ls), 0)
}

/// The first word of `s`, if any.
pub(crate) fn first_word_exec(s: &[char]) -> (r: Option<Vec<char>>)
    ensures
        match r {
            Some(w) => first_word(s@) == Some(w@) && w@.len() <= s@.len(),
            None => first_word(s@) is None,
        },
{
    let ws = split_words(s);
    proof {
        text::lemma_words_bound(s@);
    }
    if ws.len() > 0 {
        let mut v: Vec<char> = Vec::new();
        push_all(&mut v, ws[0].as_slice());
        assert(v@ =~= ws[0]@);
        Some(v)
    } else {
        None
    }
}

/// The first word after `prefix`, when `t` starts with it.
pub(crate) fn word_after_exec(t: &[char], prefix: &str) -> (r: Option<Vec<char>>)
    ensures
        match r {
            Some(w) => word_after(t@, prefix@) == Some(w@) && w@.len() <= t@.len(),
            None => word_after(t@, prefix@) is None,
        },
{
    if starts_with_str(t, prefix) {
        let n = chars_of(prefix).len();
        let rest = &t[n..t.len()];
        assert(rest@ =~= t@.skip(prefix@.len() as int));
        proof {
            text::lemma_trim_len(rest@);
        }
        first_word_exec(trim_chars(rest))
    } else {
        None
    }
}

fn to_chars(s: &[char]) -> (r: Vec<char>)
    ensures
        r@ == s@,
{
    let mut v: Vec<char> = Vec::new();
    push_all(&mut v, s);
    v
}

/// Where `name` stands on line `k`.
pub(crate) fn name_range_exec(line: &[char], k: usize, name: &[char]) -> (r: Range)
    requires
        line@.len() <= MAX_DOCUMENT_CHARS,
        name@.len() <= MAX_DOCUMENT_CHARS,
        k <= MAX_DOCUMENT_CHARS,
    ensures
        r == name_range(line@, k as int, name@),
{
    let b: usize = match find_first(line, name) {
        Some(i) => {
            proof {
                text::lemma_utf8_len_bound(line@.take(i as int));
            }
            utf8_len_sat(&line[0..i])
        },
        None => 0,
    };
    proof {
        text::lemma_utf8_len_bound(name@);
        match text::first_occurrence(line@, name@) {
            Some(i) => {
                assert(line@.subrange(0, i) =~= line@.take(i));
            },
            None => {},
        }
    }
    let nb = utf8_len_sat(name);
    Range {
        start: Position { line: k as u32, character: b as u32 },
        end: Position { line: k as u32, character: (b + nb) as u32 },
    }
}

fn symbol(name: Vec<char>, detail: &str, kind: SymbolKind, range: Range, selection_range: Range) -> (r: DocumentSymbol)
    ensures
        r@ == (name@, Some(detail@), kind, range, selection_range),
{
    DocumentSymbol {
        name: string_of(name.as_slice()),
        detail: Some(string_of(chars_of(detail).as_slice())),
        kind,
        range,
        selection_range,
    }
}

/// The views of a list of symbols.
pub open spec fn symbols_view(v: Seq<DocumentSymbol>) -> Seq<SymbolView> {
    v.map_values(|s: DocumentSymbol| s@)
}

/// The first line after `start` whose token is `end_type`, or `start`.
fn block_end_exec(toks: &Vec<TokenType>, start: usize, end_type: TokenType) -> (r: usize)
    requires
        start < toks@.len(),
    ensures
        r == block_end(toks@, start as int, end_type),
        start <= r < toks@.len(),
{
    proof {
        lemma_find_end_from(toks@, start + 1, end_type);
    }
    let n = toks.len();
    let mut j = start + 1;
    while j < toks.len()
        invariant
            start < j <= toks@.len(),
            find_end_from(toks@, start + 1, end_type) == find_end_from(toks@, j as int, end_type),
        decreases toks@.len() - j,
    {
        if toks[j] == end_type {
            return j;
        }
        j = j + 1;
    }
    start
}

/// The symbol of a block opened on line `i` (a function or an extension),
/// appended; returns the line after the block.
#[verifier::spinoff_prover]
fn block_step(
    lines: &Vec<Vec<char>>,
    toks: &Vec<TokenType>,
    i: usize,
    n: Vec<char>,
    end_type: TokenType,
    detail: &str,
    kind: SymbolKind,
    symbols: &mut Vec<DocumentSymbol>,
) -> (next: usize)
    requires
        i < lines@.len(),
        toks@.len() == lines@.len(),
        lines@.len() <= MAX_DOCUMENT_CHARS,
        forall|m: int| 0 <= m < lines@.len() ==> (#[trigger] lines@[m])@.len() <= MAX_DOCUMENT_CHARS,
        n@.len() <= lines@[i as int]@.len(),
    ensures
        next == block_end(toks@, i as int, end_type) + 1,
        symbols_view(final(symbols)@) == symbols_view(old(symbols)@).push(
            block_symbol(view_all(lines@), i as int, next - 1, n@, detail@, kind),
        ),
{
    let e = block_end_exec(toks, i, end_type);
    proof {
        reveal(block_symbol);
        text::lemma_utf8_len_bound(lines@[e as int]@);
        assert(view_all(lines@)[e as int] == lines@[e as int]@);
        assert(view_all(lines@)[i as int] == lines@[i as int]@);
    }
    let eb = utf8_len_sat(lines[e].as_slice());
    let sel = name_range_exec(lines[i].as_slice(), i, n.as_slice());
    let s = symbol(
        n,
        detail,
        kind,
        Range {
            start: Position { line: i as u32, character: 0 },
            end: Position { line: e as u32, character: eb as u32 },
        },
        sel,
    );
    let ghost before = symbols_view(symbols@);
    symbols.push(s);
    assert(symbols_view(symbols@) =~= before.push(s@));
    e + 1
}

/// The symbol of line `i` alone (a variable or a constant), appended.
#[verifier::spinoff_prover]
fn line_step(
    lines: &Vec<Vec<char>>,
    i: usize,
    n: Vec<char>,
    detail: &str,
    kind: SymbolKind,
    symbols: &mut Vec<DocumentSymbol>,
)
    requires
        i < lines@.len(),
        lines@.len() <= MAX_DOCUMENT_CHARS,
        forall|m: int| 0 <= m < lines@.len() ==> (#[trigger] lines@[m])@.len() <= MAX_DOCUMENT_CHARS,
        n@.len() <= lines@[i as int]@.len(),
    ensures
        symbols_view(final(symbols)@) == symbols_view(old(symbols)@).push(
            line_symbol(view_all(lines@), i as int, n@, detail@, kind),
        ),
{
    let line = lines[i].as_slice();
    proof {
        reveal(line_symbol);
        text::lemma_utf8_len_bound(line@);
        assert(view_all(lines@)[i as int] == line@);
    }
    let lb = utf8_len_sat(line);
    let sel = name_range_exec(line, i, n.as_slice());
    let s = symbol(
        n,
        detail,
        kind,
        Range {
            start: Position { line: i as u32, character: 0 },
            end: Position { line: i as u32, character: lb as u32 },
        },
        sel,
    );
    let ghost before = symbols_view(symbols@);
    symbols.push(s);
    assert(symbols_view(symbols@) =~= before.push(s@));
}

/// The symbols of line `i`, appended; returns the next line to look at.
#[verifier::spinoff_prover]
fn symbols_step(
    lines: &Vec<Vec<char>>,
    toks: &Vec<TokenType>,
    i: usize,
    symbols: &mut Vec<DocumentSymbol>,
) -> (next: usize)
    requires
        i < lines@.len(),
        toks@ == line_tokens(view_all(lines@)),
        lines@.len() <= MAX_DOCUMENT_CHARS,
        forall|m: int| 0 <= m < lines@.len() ==> (#[trigger] lines@[m])@.len() <= MAX_DOCUMENT_CHARS,
    ensures
        next == symbol_at(view_all(lines@), toks@, i as int).1,
        symbols_view(final(symbols)@) == match symbol_at(view_all(lines@), toks@, i as int).0 {
            Some(x) => symbols_view(old(symbols)@).push(x),
            None => symbols_view(old(symbols)@),
        },
{
    let ghost ls = view_all(lines@);
    let line = lines[i].as_slice();
    assert(line@ == ls[i as int]);
    let t = trim_chars(line);
    proof {
        text::lemma_trim_len(line@);
    }
    let tt = toks[i];
    let ghost before = symbols_view(symbols@);
    if tt == TokenType::Function {
        match word_after_exec(t, "FUNCTION") {
            Some(w) => {
                let n = to_chars(crate::code_lens::strip_parens_exec(w.as_slice()));
                let next = block_step(lines, toks, i, n, TokenType::EndFunction, "Function", SymbolKind::Function, symbols);
                next
            },
            None => i + 1,
        }
    } else if tt == TokenType::Declaration || tt == TokenType::Assignment {
        let name: Option<Vec<char>> = if starts_with_str(t, "VAR") {
            word_after_exec(t, "VAR")
        } else {
            let b = before_char(t, '=');
            proof {
                text::lemma_trim_len(b@);
            }
            first_word_exec(trim_chars(b))
        };
        match name {
            Some(n) => {
                line_step(lines, i, n, "Variable", SymbolKind::Variable, symbols);
            },
            None => {},
        }
        i + 1
    } else if tt == TokenType::Extension {
        match word_after_exec(t, "EXTENSION") {
            Some(n) => {
                let ghost nv = n@;
                let next = block_step(lines, toks, i, n, TokenType::EndExtension, "Extension", SymbolKind::Module, symbols);
                next
            },
            None => i + 1,
        }
    } else if tt == TokenType::Define {
        match word_after_exec(t, "DEFINE") {
            Some(n) => {
                let ghost nv = n@;
                line_step(lines, i, n, "Constant", SymbolKind::Constant, symbols);
            },
            None => {},
        }
        i + 1
    } else {
        i + 1
    }
}

/// The outline of a script: each function and extension (over the lines up
/// to the one that ends it), each variable set by `VAR` or an assignment,
/// and each `DEFINE`d constant, with the place of its name.
pub fn get_document_symbols(content: &str) -> (r: Vec<DocumentSymbol>)
    requires
        content@.len() <= MAX_DOCUMENT_CHARS,
    ensures
        symbols_view(r@) == document_symbols(content@),
{
    let c = chars_of(content);
    let lines = split_lines(c.as_slice());
    let toks = tokens_of_lines(&lines);
    proof {
        text::lemma_lines_bound(c@);
        assert forall|m: int| 0 <= m < lines@.len() implies (#[trigger] lines@[m])@.len()
            <= MAX_DOCUMENT_CHARS by {
            assert(lines@[m]@ == text::lines(c@)[m]);
        }
    }
    let mut symbols: Vec<DocumentSymbol> = Vec::new();
    let mut i: usize = 0;
    while i < lines.len()
        invariant
            i <= lines@.len(),
            view_all(lines@) == text::lines(content@),
            toks@ == line_tokens(view_all(lines@)),
            lines@.len() <= MAX_DOCUMENT_CHARS,
            forall|m: int| 0 <= m < lines@.len() ==> (#[trigger] lines@[m])@.len() <= MAX_DOCUMENT_CHARS,
            symbols_view(symbols@) + symbols_from(view_all(lines@), toks@, i as int) == symbols_from(
                view_all(lines@),
                toks@,
                0,
            ),
        decreases lines@.len() - i,
    {
        let ghost before = symbols_view(symbols@);
        proof {
            lemma_symbol_at_advances(view_all(lines@), toks@, i as int);
        }
        let next = symbols_step(&lines, &toks, i, &mut symbols);
        assert(symbols_view(symbols@) + symbols_from(view_all(lines@), toks@, next as int) =~= before
            + symbols_from(view_all(lines@), toks@, i as int));
        i = next;
    }
    symbols
}

} // verus!
