//! Renaming: the range of the symbol that can be renamed, and the edits
//! that rename it everywhere.
use vstd::prelude::*;

use crate::code_actions::WorkspaceEdit;
use crate::document_symbol::{name_range, name_range_exec};
use crate::references::{
    cursor_symbol_exec, reference_ranges, references, search_splits_char, symbol_at,
    bounded_lines,
};
use crate::semantic_tokens::MAX_DOCUMENT_CHARS;
use crate::text::{self, chars_of, contains_chars, find_first, starts_with_str, string_of, trim_chars, view_all};
use crate::text_edit::{Position, Range, TextEdit};

verus! {

/// Whether `line` defines a function and mentions `sym`.
pub open spec fn is_function_name(line: Seq<char>, sym: Seq<char>) -> bool {
    let t = text::trim(line);
    text::starts_with(t, "FUNCTION"@) && text::contains(t, sym)
}

/// The range that a rename at `pos` would change on that line: the first
/// place of the symbol under the cursor, for a variable, a constant or a name
/// on a function definition line.
pub open spec fn rename_range(content: Seq<char>, pos: Position) -> Option<Range> {
    let ls = text::lines(content);
    if pos.line < ls.len() {
        let line = ls[pos.line as int];
        match symbol_at(line, pos.character as int) {
            Some(s) => if s[0] == '$' || s[0] == '#' || is_function_name(line, s) {
                match text::first_occurrence(line, s) {
                    Some(_) => Some(name_range(line, pos.line as int, s)),
                    None => None,
                }
            } else {
                None
            },
            None => None,
        }
    } else {
        None
    }
}

/// The range of the symbol under the cursor, when it can be renamed.
pub fn prepare_rename(content: &str, position: Position) -> (r: Option<Range>)
    requires
        content@.len() <= MAX_DOCUMENT_CHARS,
    ensures
        r == rename_range(content@, position),
{
    let lines = bounded_lines(content);
    let s = match cursor_symbol_exec(&lines, position) {
        Some(s) => s,
        None => {
            return None;
        },
    };
    let k = position.line as usize;
    let line = lines[k].as_slice();
    assert(view_all(lines@)[k as int] == line@);
    let t = trim_chars(line);
    if s[0] == '$' || s[0] == '#' || (starts_with_str(t, "FUNCTION") && contains_chars(t, s.as_slice())) {
        match find_first(line, s.as_slice()) {
            Some(_) => Some(name_range_exec(line, k, s.as_slice())),
            None => None,
        }
    } else {
        None
    }
}

/// The rename of the symbol under the cursor to `new_name`: every reference
/// replaced, or nothing when there is none.
pub fn rename_symbol(content: &str, position: Position, new_name: &str, uri: &str) -> (r: Option<WorkspaceEdit>)
    requires
        content@.len() <= MAX_DOCUMENT_CHARS,
        !search_splits_char(content@, position),
    ensures
        match r {
            Some(w) => {
                let refs = references(content@, position, true);
                &&& refs.len() > 0
                &&& w.uri@ == uri@
                &&& w.edits@.len() == refs.len()
                &&& forall|i: int|
                    0 <= i < refs.len() ==> (#[trigger] w.edits@[i]).range == refs[i]
                        && w.edits@[i].new_text@ == new_name@
            },
            None => references(content@, position, true).len() == 0,
        },
{
    let ranges = reference_ranges(content, position, true);
    if ranges.len() == 0 {
        return None;
    }
    let name = chars_of(new_name);
    let mut edits: Vec<TextEdit> = Vec::new();
    let mut j: usize = 0;
    while j < ranges.len()
        invariant
            j <= ranges@.len(),
            name@ == new_name@,
            edits@.len() == j,
            forall|i: int|
                0 <= i < j ==> (#[trigger] edits@[i]).range == ranges@[i] && edits@[i].new_text@
                    == new_name@,
        decreases ranges@.len() - j,
    {
        edits.push(TextEdit { range: ranges[j], new_text: string_of(name.as_slice()) });
        j = j + 1;
    }
    Some(WorkspaceEdit { uri: string_of(chars_of(uri).as_slice()), edits })
}

} // verus!
