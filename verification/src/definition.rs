//! Go to definition: where the variable, function or constant under the
//! cursor is declared.
use vstd::prelude::*;

use crate::code_lens::{strip_parens, strip_parens_exec};
use crate::document_symbol::{name_range, name_range_exec};
use crate::lexer::{tokenize_spec, tokenize_trimmed_chars, TokenType};
use crate::references::{bounded_lines, cursor_symbol_exec, symbol_at, Location};
use crate::semantic_tokens::MAX_DOCUMENT_CHARS;
use crate::text::{
    self, chars_of, contains_chars, eq_chars, find_first, starts_with_str, string_of, trim_chars,
    trim_start_chars, view_all,
};
use crate::text_edit::{Position, Range};

verus! {

/// Line `line` declares the variable or constant `w` (it starts, trimmed,
/// with `keyword` and mentions `w`).
pub open spec fn declares(line: Seq<char>, keyword: Seq<char>, w: Seq<char>) -> bool {
    let t = text::trim(line);
    text::starts_with(t, keyword) && text::contains(t, w) && text::first_occurrence(line, w) is Some
}

/// The name a `FUNCTION` line defines, without `()` and surrounding space.
pub open spec fn defined_function(t: Seq<char>) -> Seq<char> {
    text::trim(strip_parens(text::trim(t.skip(8))))
}

/// Line `line` defines the function called `w`.
pub open spec fn defines(line: Seq<char>, w: Seq<char>) -> bool {
    let t = text::trim(line);
    &&& text::starts_with(t, "FUNCTION"@)
    &&& defined_function(t) == strip_parens(w)
    &&& text::first_occurrence(line, defined_function(t)) is Some
}

/// The first line from `k` on that declares `w` after `keyword`.
pub open spec fn declaration_from(ls: Seq<Seq<char>>, k: int, keyword: Seq<char>, w: Seq<char>) -> Option<int>
    decreases ls.len() - k,
{
    if k < 0 || k >= ls.len() {
        None
    } else if declares(ls[k], keyword, w) {
        Some(k)
    } else {
        declaration_from(ls, k + 1, keyword, w)
    }
}

/// The first line from `k` on that defines the function `w`.
pub open spec fn function_from(ls: Seq<Seq<char>>, k: int, w: Seq<char>) -> Option<int>
    decreases ls.len() - k,
{
    if k < 0 || k >= ls.len() {
        None
    } else if defines(ls[k], w) {
        Some(k)
    } else {
        function_from(ls, k + 1, w)
    }
}

pub proof fn lemma_function_from(ls: Seq<Seq<char>>, j: int, w: Seq<char>)
    requires
        0 <= j,
    ensures
        match function_from(ls, j, w) {
            Some(k) => j <= k < ls.len() && defines(ls[k], w),
            None => true,
        },
    decreases ls.len() - j,
{
    if j < ls.len() && !defines(ls[j], w) {
        lemma_function_from(ls, j + 1, w);
    }
}

/// Where the symbol under the cursor is declared: a variable on its `VAR`
/// line, a function called on the cursor's line on its `FUNCTION` line, a
/// constant on a `DEFINE` line when the cursor is on one.
pub open spec fn definition_range(content: Seq<char>, pos: Position) -> Option<Range> {
    let ls = text::lines(content);
    if pos.line < ls.len() {
        let line = ls[pos.line as int];
        match symbol_at(line, pos.character as int) {
            Some(w) => if w[0] == '$' {
                match declaration_from(ls, 0, "VAR"@, w) {
                    Some(k) => Some(name_range(ls[k], k, w)),
                    None => None,
                }
            } else if tokenize_spec(text::trim(line)) == TokenType::FunctionCall {
                match function_from(ls, 0, w) {
                    Some(k) => Some(
                        name_range(ls[k], k, defined_function(text::trim(ls[k]))),
                    ),
                    None => None,
                }
            } else if text::starts_with(text::trim_start(line), "DEFINE"@) && w[0] == '#' {
                match declaration_from(ls, 0, "DEFINE"@, w) {
                    Some(k) => Some(name_range(ls[k], k, w)),
                    None => None,
                }
            } else {
                None
            },
            None => None,
        }
    } else {
        None
    }
}

fn declares_exec(line: &[char], keyword: &str, w: &[char]) -> (r: bool)
    ensures
        r == declares(line@, keyword@, w@),
{
    let t = trim_chars(line);
    starts_with_str(t, keyword) && contains_chars(t, w) && find_first(line, w).is_some()
}

fn defined_function_exec(t: &[char]) -> (r: &[char])
    requires
        text::starts_with(t@, "FUNCTION"@),
    ensures
        r@ == defined_function(t@),
        r@.len() <= t@.len(),
{
    proof {
        reveal_strlit("FUNCTION");
    }
    let rest = &t[8..t.len()];
    assert(rest@ =~= t@.skip(8));
    let a = trim_chars(rest);
    let b = strip_parens_exec(a);
    proof {
        text::lemma_trim_len(rest@);
        text::lemma_trim_len(b@);
    }
    trim_chars(b)
}

fn defines_exec(line: &[char], w: &[char]) -> (r: bool)
    ensures
        r == defines(line@, w@),
{
    let t = trim_chars(line);
    if !starts_with_str(t, "FUNCTION") {
        return false;
    }
    let name = defined_function_exec(t);
    eq_chars(name, strip_parens_exec(w)) && find_first(line, name).is_some()
}

/// The location of `w` on line `k`.
fn location_at(lines: &Vec<Vec<char>>, k: usize, w: &[char], uri: &str) -> (r: Location)
    requires
        k < lines@.len(),
        lines@.len() <= MAX_DOCUMENT_CHARS,
        forall|m: int| 0 <= m < lines@.len() ==> (#[trigger] lines@[m])@.len() <= MAX_DOCUMENT_CHARS,
        w@.len() <= MAX_DOCUMENT_CHARS,
    ensures
        r.uri@ == uri@,
        r.range == name_range(view_all(lines@)[k as int], k as int, w@),
{
    assert(view_all(lines@)[k as int] == lines@[k as int]@);
    let range = name_range_exec(lines[k].as_slice(), k, w);
    Location { uri: string_of(chars_of(uri).as_slice()), range }
}

/// The first line that declares `w` after `keyword`.
fn declaration_line(lines: &Vec<Vec<char>>, keyword: &str, w: &[char]) -> (r: Option<usize>)
    ensures
        match r {
            Some(k) => declaration_from(view_all(lines@), 0, keyword@, w@) == Some(k as int) && k < lines@.len(),
            None => declaration_from(view_all(lines@), 0, keyword@, w@) is None,
        },
{
    let mut k: usize = 0;
    while k < lines.len()
        invariant
            k <= lines@.len(),
            declaration_from(view_all(lines@), 0, keyword@, w@) == declaration_from(
                view_all(lines@),
                k as int,
                keyword@,
                w@,
            ),
        decreases lines@.len() - k,
    {
        assert(view_all(lines@)[k as int] == lines@[k as int]@);
        if declares_exec(lines[k].as_slice(), keyword, w) {
            return Some(k);
        }
        k = k + 1;
    }
    None
}

/// The first line that defines the function `w`.
fn function_line(lines: &Vec<Vec<char>>, w: &[char]) -> (r: Option<usize>)
    ensures
        match r {
            Some(k) => function_from(view_all(lines@), 0, w@) == Some(k as int) && k < lines@.len(),
            None => function_from(view_all(lines@), 0, w@) is None,
        },
{
    let mut k: usize = 0;
    while k < lines.len()
        invariant
            k <= lines@.len(),
            function_from(view_all(lines@), 0, w@) == function_from(view_all(lines@), k as int, w@),
        decreases lines@.len() - k,
    {
        assert(view_all(lines@)[k as int] == lines@[k as int]@);
        if defines_exec(lines[k].as_slice(), w) {
            return Some(k);
        }
        k = k + 1;
    }
    None
}

/// The declaration of the symbol under the cursor, if it can be found.
pub fn find_definition(content: &str, position: Position, uri: &str) -> (r: Option<Location>)
    requires
        content@.len() <= MAX_DOCUMENT_CHARS,
    ensures
        match r {
            Some(l) => definition_range(content@, position) == Some(l.range) && l.uri@ == uri@,
            None => definition_range(content@, position) is None,
        },
{
    let lines = bounded_lines(content);
    let ghost ls = view_all(lines@);
    let w = match cursor_symbol_exec(&lines, position) {
        Some(w) => w,
        None => {
            return None;
        },
    };
    let p = position.line as usize;
    let line = lines[p].as_slice();
    assert(ls[p as int] == line@);
    if w[0] == '$' {
        return match declaration_line(&lines, "VAR", w.as_slice()) {
            Some(k) => Some(location_at(&lines, k, w.as_slice(), uri)),
            None => None,
        };
    }
    if tokenize_trimmed_chars(trim_chars(line)) == TokenType::FunctionCall {
        return match function_line(&lines, w.as_slice()) {
            Some(k) => {
                assert(ls[k as int] == lines@[k as int]@);
                proof {
                    lemma_function_from(ls, 0, w@);
                }
                let t = trim_chars(lines[k].as_slice());
                proof {
                    text::lemma_trim_len(lines@[k as int]@);
                }
                let name = defined_function_exec(t);
                Some(location_at(&lines, k, name, uri))
            },
            None => None,
        };
    }
    if starts_with_str(trim_start_chars(line), "DEFINE") && w[0] == '#' {
        return match declaration_line(&lines, "DEFINE", w.as_slice()) {
            Some(k) => Some(location_at(&lines, k, w.as_slice(), uri)),
            None => None,
        };
    }
    None
}

} // verus!
