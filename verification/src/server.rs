//! What the language server answers to hover and completion requests, from
//! the text of the open document.
use vstd::prelude::*;

use crate::completions::{
    entries, function_keys, get_keyword_completions, get_modifier_completions,
    get_reserved_variable_completions, get_special_key_completions, items_view, keyword_table,
    modifier_table, numpad_table, reserved_variable_table, special_key_table, CompletionItem,
    CompletionItemKind,
};
use crate::hover::{get_hover_info, get_variable_hover, hover_doc, variable_doc, Hover};
use crate::lexer::tokenize_spec;
use crate::range_formatting::char_at_byte_exec;
use crate::references::bounded_lines;
use crate::semantic_tokens::{alphanumeric, is_alphanumeric, MAX_DOCUMENT_CHARS};
use crate::signature_help::{cursor_splits_char, cut_point};
use crate::text::{self, contains_str, ends_with_str, string_of, utf8_len_sat, view_all};
use crate::text_edit::Position;

verus! {

/// The number of variable-name characters (letters, digits, `_`, `$`) from
/// position `i` on.
pub open spec fn variable_run(s: Seq<char>, i: int) -> nat
    decreases s.len() - i,
{
    if 0 <= i < s.len() && (alphanumeric(s[i]) || s[i] == '_' || s[i] == '$') {
        1 + variable_run(s, i + 1)
    } else {
        0
    }
}

/// The documentation shown when hovering at `pos`: that of a variable the
/// device sets when the pointer is on a `$` or just after one, else that of
/// the line's command.
pub open spec fn hover_markdown(content: Seq<char>, pos: Position) -> Option<Seq<char>> {
    let ls = text::lines(content);
    if pos.line >= ls.len() {
        None
    } else {
        let line = ls[pos.line as int];
        let c = pos.character as int;
        let var_doc = if c < line.len() && (line[c] == '$' || (c > 0 && line[c - 1] == '$')) {
            let st = if line[c] == '$' {
                c
            } else {
                c - 1
            };
            variable_doc(line.subrange(st, st + variable_run(line, st)))
        } else {
            None
        };
        if var_doc is Some {
            var_doc
        } else {
            hover_doc(tokenize_spec(text::trim(text::trim(line))))
        }
    }
}

fn variable_run_exec(s: &[char], i: usize) -> (n: usize)
    requires
        i <= s@.len(),
    ensures
        n == variable_run(s@, i as int),
        i + n <= s@.len(),
{
    let mut j = i;
    while j < s.len() && (is_alphanumeric(s[j]) || s[j] == '_' || s[j] == '$')
        invariant
            i <= j <= s@.len(),
            variable_run(s@, i as int) == (j - i) + variable_run(s@, j as int),
        decreases s@.len() - j,
    {
        j = j + 1;
    }
    j - i
}

/// The hover for `position` in a document: the documentation of the
/// variable under the pointer if the device sets it, else of the line's
/// command.
pub fn hover_response(content: &str, position: Position) -> (r: Option<Hover>)
    requires
        content@.len() <= MAX_DOCUMENT_CHARS,
    ensures
        match r {
            Some(h) => hover_markdown(content@, position) == Some(h.markdown@),
            None => hover_markdown(content@, position) is None,
        },
{
    let lines = bounded_lines(content);
    let k = position.line as usize;
    if k >= lines.len() {
        return None;
    }
    let line = lines[k].as_slice();
    assert(view_all(lines@)[k as int] == line@);
    let c = position.character as usize;
    if c < line.len() && (line[c] == '$' || (c > 0 && line[c - 1] == '$')) {
        let st = if line[c] == '$' {
            c
        } else {
            c - 1
        };
        let n = variable_run_exec(line, st);
        let name = string_of(&line[st..st + n]);
        match get_variable_hover(name.as_str()) {
            Some(h) => {
                return Some(h);
            },
            None => {},
        }
    }
    get_hover_info(string_of(line).as_str(), position)
}

/// Every completion, in the order the server lists them.
pub open spec fn all_completions() -> Seq<(Seq<char>, Option<CompletionItemKind>, Option<Seq<char>>)> {
    entries(keyword_table(), CompletionItemKind::Keyword) + entries(
        modifier_table(),
        CompletionItemKind::Constant,
    ) + (function_keys() + entries(special_key_table(), CompletionItemKind::Constant) + entries(
        numpad_table(),
        CompletionItemKind::Constant,
    )) + entries(reserved_variable_table(), CompletionItemKind::Variable)
}

/// The completions offered at `pos`: only the device's variables right
/// after a `$` or once `$_` is typed on the line, else everything; nothing on
/// a line past the end, everything when the document is not open.
pub open spec fn completions_at(content: Option<Seq<char>>, pos: Position) -> Seq<
    (Seq<char>, Option<CompletionItemKind>, Option<Seq<char>>),
> {
    match content {
        None => all_completions(),
        Some(c) => {
            let ls = text::lines(c);
            if pos.line < ls.len() {
                let line = ls[pos.line as int];
                let prefix = line.take(cut_point(line, pos.character as int)->0);
                if text::ends_with(prefix, "$"@) || text::contains(prefix, "$_"@) {
                    entries(reserved_variable_table(), CompletionItemKind::Variable)
                } else {
                    all_completions()
                }
            } else {
                seq![]
            }
        },
    }
}

fn all_completion_items() -> (r: Vec<CompletionItem>)
    ensures
        items_view(r@) == all_completions(),
{
    let mut items = get_keyword_completions();
    let ghost a = items_view(items@);
    let mut m = get_modifier_completions();
    let ghost b = items_view(m@);
    let mut s = get_special_key_completions();
    let ghost c = items_view(s@);
    let mut v = get_reserved_variable_completions();
    let ghost d = items_view(v@);
    let ghost ia = items@;
    let ghost ib = m@;
    let ghost ic = s@;
    let ghost id = v@;
    items.append(&mut m);
    items.append(&mut s);
    items.append(&mut v);
    assert(items@ =~= ia + ib + ic + id);
    assert(items_view(ia + ib + ic + id) =~= a + b + c + d);
    items
}

/// The completions for `position` in the open document (or with no document).
pub fn completion_response(content: Option<&str>, position: Position) -> (r: Vec<CompletionItem>)
    requires
        match content {
            Some(c) => c@.len() <= MAX_DOCUMENT_CHARS && !cursor_splits_char(c@, position),
            None => true,
        },
    ensures
        items_view(r@) == completions_at(
            match content {
                Some(c) => Some(c@),
                None => None,
            },
            position,
        ),
{
    match content {
        None => all_completion_items(),
        Some(c) => {
            let lines = bounded_lines(c);
            let k = position.line as usize;
            if k >= lines.len() {
                let v: Vec<CompletionItem> = Vec::new();
                assert(items_view(v@) =~= Seq::<(Seq<char>, Option<CompletionItemKind>, Option<Seq<char>>)>::empty());
                return v;
            }
            let line = lines[k].as_slice();
            assert(view_all(lines@)[k as int] == line@);
            proof {
                text::lemma_utf8_len_bound(line@);
            }
            let n = utf8_len_sat(line);
            let pc = position.character as usize;
            let cut = match char_at_byte_exec(line, if pc < n { pc } else { n }) {
                Some(i) => i,
                None => {
                    return Vec::new();
                },
            };
            let prefix = &line[0..cut];
            assert(prefix@ =~= line@.take(cut as int));
            if ends_with_str(prefix, "$") || contains_str(prefix, "$_") {
                get_reserved_variable_completions()
            } else {
                all_completion_items()
            }
        },
    }
}

} // verus!
