//! References: every place a variable, constant or function name under the
//! cursor occurs as a whole word.
use vstd::prelude::*;

use crate::semantic_tokens::{alphanumeric, is_alphanumeric, MAX_DOCUMENT_CHARS};
use crate::text::{
    self, chars_of, contains_chars, prefix_eq, split_lines, starts_with_str, string_of, trim_chars,
    utf8_len, utf8_len_sat, view_all,
};
use crate::text_edit::{Position, Range};

verus! {

/// A range of a document.
#[derive(Debug)]
pub struct Location {
    pub uri: String,
    pub range: Range,
}

/// A character that can be part of a symbol: a letter, a digit, `_`, `$`
/// or `#`.
pub open spec fn symbol_char(c: char) -> bool {
    alphanumeric(c) || c == '_' || c == '$' || c == '#'
}

/// The number of symbol characters right before position `p`.
pub open spec fn run_back(s: Seq<char>, p: int) -> nat
    decreases p,
{
    if 0 < p <= s.len() && symbol_char(s[p - 1]) {
        1 + run_back(s, p - 1)
    } else {
        0
    }
}

/// The number of symbol characters from position `p` on.
pub open spec fn run_fwd(s: Seq<char>, p: int) -> nat
    decreases s.len() - p,
{
    if 0 <= p < s.len() && symbol_char(s[p]) {
        1 + run_fwd(s, p + 1)
    } else {
        0
    }
}

/// The symbol at character `p` of a line: the run of symbol characters
/// around it, if `p` is on the line and the run is not empty.
pub open spec fn symbol_at(line: Seq<char>, p: int) -> Option<Seq<char>> {
    if p >= line.len() || p < 0 {
        None
    } else {
        let start = p - run_back(line, p);
        let end = p + run_fwd(line, p);
        if start < end {
            Some(line.subrange(start, end))
        } else {
            None
        }
    }
}

/// Whether the character at `x` is a letter or digit, a position off the
/// line counting as a space.
pub open spec fn alnum_at(line: Seq<char>, x: int) -> bool {
    if 0 <= x < line.len() {
        alphanumeric(line[x])
    } else {
        alphanumeric(' ')
    }
}

/// Whether the occurrence of `sym` at character `i` stands as a whole word.
/// Its byte offset `b` is read back as a character index on both sides, as
/// the editor's search does.
pub open spec fn whole_word(line: Seq<char>, sym: Seq<char>, i: int) -> bool {
    let b = utf8_len(line.take(i)) as int;
    let n = utf8_len(sym) as int;
    &&& (b == 0 || !alnum_at(line, b - 1))
    &&& (b + n >= utf8_len(line) || !alnum_at(line, b + n))
}

/// The range of the occurrence of `sym` at character `i` of line `k`, in
/// bytes.
pub open spec fn occurrence_range(line: Seq<char>, k: int, sym: Seq<char>, i: int) -> Range {
    let b = utf8_len(line.take(i)) as int;
    Range {
        start: Position { line: k as u32, character: b as u32 },
        end: Position { line: k as u32, character: (b + utf8_len(sym)) as u32 },
    }
}

/// The whole-word occurrences of `sym` in `line` from character `i` on.
pub open spec fn word_hits(line: Seq<char>, sym: Seq<char>, i: int) -> Seq<int>
    decreases line.len() + 1 - i,
{
    if i < 0 || i > line.len() {
        seq![]
    } else if text::occurs_at(line, sym, i) && whole_word(line, sym, i) {
        seq![i] + word_hits(line, sym, i + 1)
    } else {
        word_hits(line, sym, i + 1)
    }
}

/// Whether `line` declares `sym`: a `VAR` line for a variable, a `FUNCTION`
/// line that mentions it, a `DEFINE` line for a constant.
pub open spec fn is_declaration_line(line: Seq<char>, sym: Seq<char>) -> bool {
    let t = text::trim(line);
    ||| (text::starts_with(t, "VAR"@) && sym.len() > 0 && sym[0] == '$')
    ||| (text::starts_with(t, "FUNCTION"@) && text::contains(t, sym))
    ||| (text::starts_with(t, "DEFINE"@) && sym.len() > 0 && sym[0] == '#')
}

/// The ranges of line `k` where `sym` is referred to.
pub open spec fn line_references(line: Seq<char>, k: int, sym: Seq<char>, include_declaration: bool) -> Seq<Range> {
    if include_declaration || !is_declaration_line(line, sym) {
        word_hits(line, sym, 0).map_values(|i: int| occurrence_range(line, k, sym, i))
    } else {
        seq![]
    }
}

/// The references from line `k` on.
pub open spec fn references_from(ls: Seq<Seq<char>>, k: int, sym: Seq<char>, include_declaration: bool) -> Seq<Range>
    decreases ls.len() - k,
{
    if k < 0 || k >= ls.len() {
        seq![]
    } else {
        line_references(ls[k], k, sym, include_declaration) + references_from(
            ls,
            k + 1,
            sym,
            include_declaration,
        )
    }
}

/// The symbol under the cursor, if any.
pub open spec fn cursor_symbol(content: Seq<char>, pos: Position) -> Option<Seq<char>> {
    let ls = text::lines(content);
    if pos.line < ls.len() {
        symbol_at(ls[pos.line as int], pos.character as int)
    } else {
        None
    }
}

/// The search for a symbol that starts with a character of more than one
/// byte steps into the middle of that character.
pub open spec fn search_splits_char(content: Seq<char>, pos: Position) -> bool {
    match cursor_symbol(content, pos) {
        Some(s) => (s[0] as u32) >= 0x80,
        None => false,
    }
}

/// The references to the symbol under the cursor.
pub open spec fn references(content: Seq<char>, pos: Position, include_declaration: bool) -> Seq<Range> {
    match cursor_symbol(content, pos) {
        Some(s) => references_from(text::lines(content), 0, s, include_declaration),
        None => seq![],
    }
}

pub(crate) fn symbol_char_exec(c: char) -> (r: bool)
    ensures
        r == symbol_char(c),
{
    is_alphanumeric(c) || c == '_' || c == '$' || c == '#'
}

/// The symbol at character `p` of a line.
pub(crate) fn extract_symbol_at_position(line: &[char], p: usize) -> (r: Option<Vec<char>>)
    ensures
        match r {
            Some(s) => symbol_at(line@, p as int) == Some(s@) && 0 < s@.len() <= line@.len(),
            None => symbol_at(line@, p as int) is None,
        },
{
    if p >= line.len() {
        return None;
    }
    let mut start = p;
    while start > 0 && symbol_char_exec(line[start - 1])
        invariant
            start <= p < line@.len(),
            run_back(line@, p as int) == (p - start) + run_back(line@, start as int),
        decreases start,
    {
        start = start - 1;
    }
    let mut end = p;
    while end < line.len() && symbol_char_exec(line[end])
        invariant
            p <= end <= line@.len(),
            run_fwd(line@, p as int) == (end - p) + run_fwd(line@, end as int),
        decreases line@.len() - end,
    {
        end = end + 1;
    }
    if start < end {
        let mut v: Vec<char> = Vec::new();
        crate::on_type_formatting::push_all(&mut v, &line[start..end]);
        Some(v)
    } else {
        None
    }
}

fn alnum_at_exec(line: &[char], x: usize) -> (r: bool)
    ensures
        r == alnum_at(line@, x as int),
{
    if x < line.len() {
        is_alphanumeric(line[x])
    } else {
        is_alphanumeric(' ')
    }
}

/// The byte length of the first `i` characters.
fn bytes_before(line: &[char], i: usize) -> (r: usize)
    requires
        i <= line@.len(),
        line@.len() <= MAX_DOCUMENT_CHARS,
    ensures
        r == utf8_len(line@.take(i as int)),
        r <= 4 * MAX_DOCUMENT_CHARS,
{
    let w = &line[0..i];
    assert(w@ =~= line@.take(i as int));
    proof {
        text::lemma_utf8_len_bound(w@);
    }
    utf8_len_sat(w)
}

/// The whole-word occurrences of `sym` in `line`, by character position.
pub(crate) fn word_hits_exec(line: &[char], sym: &[char]) -> (r: Vec<usize>)
    requires
        line@.len() <= MAX_DOCUMENT_CHARS,
        sym@.len() <= MAX_DOCUMENT_CHARS,
    ensures
        r@.map_values(|i: usize| i as int) == word_hits(line@, sym@, 0),
        forall|j: int| 0 <= j < r@.len() ==> r@[j] <= line@.len(),
{
    proof {
        text::lemma_utf8_len_bound(line@);
        text::lemma_utf8_len_bound(sym@);
    }
    let total = utf8_len_sat(line);
    let n = utf8_len_sat(sym);
    let mut hits: Vec<usize> = Vec::new();
    let mut i: usize = 0;
    while i <= line.len()
        invariant
            i <= line@.len() + 1,
            line@.len() <= MAX_DOCUMENT_CHARS,
            total == utf8_len(line@),
            n == utf8_len(sym@),
            total <= 4 * MAX_DOCUMENT_CHARS,
            n <= 4 * MAX_DOCUMENT_CHARS,
            hits@.map_values(|i: usize| i as int) + word_hits(line@, sym@, i as int) == word_hits(
                line@,
                sym@,
                0,
            ),
            forall|j: int| 0 <= j < hits@.len() ==> hits@[j] <= line@.len(),
        decreases line@.len() + 1 - i,
    {
        if prefix_eq(line, i, sym) {
            let b = bytes_before(line, i);
            let starts = b == 0 || !alnum_at_exec(line, b - 1);
            let ends = b + n >= total || !alnum_at_exec(line, b + n);
            if starts && ends {
                let ghost before = hits@.map_values(|i: usize| i as int);
                hits.push(i);
                assert(hits@.map_values(|i: usize| i as int) =~= before.push(i as int));
                assert(before.push(i as int) + word_hits(line@, sym@, i + 1) =~= before + word_hits(
                    line@,
                    sym@,
                    i as int,
                ));
            }
        }
        i = i + 1;
    }
    hits
}

pub(crate) fn occurrence_range_exec(line: &[char], k: usize, sym: &[char], i: usize) -> (r: Range)
    requires
        i <= line@.len(),
        line@.len() <= MAX_DOCUMENT_CHARS,
        sym@.len() <= MAX_DOCUMENT_CHARS,
        k <= MAX_DOCUMENT_CHARS,
    ensures
        r == occurrence_range(line@, k as int, sym@, i as int),
{
    let b = bytes_before(line, i);
    proof {
        text::lemma_utf8_len_bound(sym@);
    }
    let n = utf8_len_sat(sym);
    Range {
        start: Position { line: k as u32, character: b as u32 },
        end: Position { line: k as u32, character: (b + n) as u32 },
    }
}

fn is_declaration_line_exec(line: &[char], sym: &[char]) -> (r: bool)
    ensures
        r == is_declaration_line(line@, sym@),
{
    let t = trim_chars(line);
    (starts_with_str(t, "VAR") && sym.len() > 0 && sym[0] == '$') || (starts_with_str(
        t,
        "FUNCTION",
    ) && contains_chars(t, sym)) || (starts_with_str(t, "DEFINE") && sym.len() > 0 && sym[0]
        == '#')
}

/// The lines of a script, with the bounds the searches need.
pub(crate) fn bounded_lines(content: &str) -> (r: Vec<Vec<char>>)
    requires
        content@.len() <= MAX_DOCUMENT_CHARS,
    ensures
        view_all(r@) == text::lines(content@),
        r@.len() <= MAX_DOCUMENT_CHARS,
        forall|m: int| 0 <= m < r@.len() ==> (#[trigger] r@[m])@.len() <= MAX_DOCUMENT_CHARS,
{
    let c = chars_of(content);
    let lines = split_lines(c.as_slice());
    proof {
        text::lemma_lines_bound(c@);
        assert forall|m: int| 0 <= m < lines@.len() implies (#[trigger] lines@[m])@.len()
            <= MAX_DOCUMENT_CHARS by {
            assert(lines@[m]@ == text::lines(c@)[m]);
        }
    }
    lines
}

/// The symbol under the cursor.
pub(crate) fn cursor_symbol_exec(lines: &Vec<Vec<char>>, pos: Position) -> (r: Option<Vec<char>>)
    requires
        lines@.len() <= MAX_DOCUMENT_CHARS,
        forall|m: int| 0 <= m < lines@.len() ==> (#[trigger] lines@[m])@.len() <= MAX_DOCUMENT_CHARS,
    ensures
        match r {
            Some(s) => {
                &&& pos.line < lines@.len()
                &&& symbol_at(view_all(lines@)[pos.line as int], pos.character as int) == Some(s@)
                &&& 0 < s@.len() <= MAX_DOCUMENT_CHARS
            },
            None => pos.line >= lines@.len() || symbol_at(
                view_all(lines@)[pos.line as int],
                pos.character as int,
            ) is None,
        },
{
    let k = pos.line as usize;
    if k >= lines.len() {
        return None;
    }
    assert(view_all(lines@)[k as int] == lines@[k as int]@);
    extract_symbol_at_position(lines[k].as_slice(), pos.character as usize)
}

/// The references to `sym` on line `k`, appended.
fn line_references_exec(line: &[char], k: usize, sym: &[char], include_declaration: bool, out: &mut Vec<Range>)
    requires
        line@.len() <= MAX_DOCUMENT_CHARS,
        sym@.len() <= MAX_DOCUMENT_CHARS,
        k <= MAX_DOCUMENT_CHARS,
    ensures
        final(out)@ == old(out)@ + line_references(line@, k as int, sym@, include_declaration),
{
    if include_declaration || !is_declaration_line_exec(line, sym) {
        let hits = word_hits_exec(line, sym);
        let ghost want = word_hits(line@, sym@, 0).map_values(
            |i: int| occurrence_range(line@, k as int, sym@, i),
        );
        let mut j: usize = 0;
        while j < hits.len()
            invariant
                j <= hits@.len(),
                line@.len() <= MAX_DOCUMENT_CHARS,
                sym@.len() <= MAX_DOCUMENT_CHARS,
                k <= MAX_DOCUMENT_CHARS,
                hits@.map_values(|i: usize| i as int) == word_hits(line@, sym@, 0),
                forall|m: int| 0 <= m < hits@.len() ==> hits@[m] <= line@.len(),
                want == word_hits(line@, sym@, 0).map_values(
                    |i: int| occurrence_range(line@, k as int, sym@, i),
                ),
                out@ == old(out)@ + want.take(j as int),
            decreases hits@.len() - j,
        {
            assert(hits@.map_values(|i: usize| i as int)[j as int] == hits@[j as int] as int);
            let r = occurrence_range_exec(line, k, sym, hits[j]);
            out.push(r);
            j = j + 1;
            assert(out@ =~= old(out)@ + want.take(j as int));
        }
        assert(want.take(j as int) =~= want);
    } else {
        assert(out@ =~= old(out)@ + Seq::<Range>::empty());
    }
}

/// The ranges where the symbol under the cursor occurs as a whole word,
/// skipping the lines that declare it unless `include_declaration`.
pub fn reference_ranges(content: &str, position: Position, include_declaration: bool) -> (r: Vec<Range>)
    requires
        content@.len() <= MAX_DOCUMENT_CHARS,
        !search_splits_char(content@, position),
    ensures
        r@ == references(content@, position, include_declaration),
{
    let lines = bounded_lines(content);
    let mut out: Vec<Range> = Vec::new();
    let sym = match cursor_symbol_exec(&lines, position) {
        Some(s) => s,
        None => {
            return out;
        },
    };
    let ghost ls = view_all(lines@);
    let mut k: usize = 0;
    while k < lines.len()
        invariant
            k <= lines@.len(),
            ls == view_all(lines@),
            ls == text::lines(content@),
            lines@.len() <= MAX_DOCUMENT_CHARS,
            forall|m: int| 0 <= m < lines@.len() ==> (#[trigger] lines@[m])@.len() <= MAX_DOCUMENT_CHARS,
            sym@.len() <= MAX_DOCUMENT_CHARS,
            cursor_symbol(content@, position) == Some(sym@),
            out@ + references_from(ls, k as int, sym@, include_declaration) == references_from(
                ls,
                0,
                sym@,
                include_declaration,
            ),
        decreases lines@.len() - k,
    {
        assert(ls[k as int] == lines@[k as int]@);
        let ghost before = out@;
        line_references_exec(lines[k].as_slice(), k, sym.as_slice(), include_declaration, &mut out);
        assert(out@ + references_from(ls, k + 1, sym@, include_declaration) =~= before
            + references_from(ls, k as int, sym@, include_declaration));
        k = k + 1;
    }
    assert(out@ + references_from(ls, k as int, sym@, include_declaration) =~= out@);
    out
}

/// The references to the symbol under the cursor, as locations in `uri`.
pub fn find_references(content: &str, position: Position, include_declaration: bool, uri: &str) -> (r: Vec<Location>)
    requires
        content@.len() <= MAX_DOCUMENT_CHARS,
        !search_splits_char(content@, position),
    ensures
        r@.len() == references(content@, position, include_declaration).len(),
        forall|i: int|
            0 <= i < r@.len() ==> (#[trigger] r@[i]).uri@ == uri@ && r@[i].range == references(
                content@,
                position,
                include_declaration,
            )[i],
{
    let ranges = reference_ranges(content, position, include_declaration);
    let u = chars_of(uri);
    let mut out: Vec<Location> = Vec::new();
    let mut j: usize = 0;
    while j < ranges.len()
        invariant
            j <= ranges@.len(),
            u@ == uri@,
            out@.len() == j,
            forall|i: int| 0 <= i < j ==> (#[trigger] out@[i]).uri@ == uri@ && out@[i].range == ranges@[i],
        decreases ranges@.len() - j,
    {
        out.push(Location { uri: string_of(u.as_slice()), range: ranges[j] });
        j = j + 1;
    }
    out
}


} // verus!
