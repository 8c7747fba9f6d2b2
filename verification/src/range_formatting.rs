//! Range formatting: re-indenting only the lines of a selection, the
//! indentation level read from the lines above it.
use vstd::prelude::*;

use crate::document_formatting::{closes_level, opens_level};
use crate::lexer::{tokenize_spec, tokenize_trimmed_chars, TokenType};
use crate::on_type_formatting::{indent_unit, push_all, rep, repeat_chars, FormattingOptions};
use crate::references::bounded_lines;
use crate::semantic_tokens::MAX_DOCUMENT_CHARS;
use crate::text::{self, eq_chars, string_of, trim_chars, utf8_len, utf8_len_sat, view_all};
use crate::text_edit::{edits_view, Position, Range, TextEdit};

verus! {

/// The level after a line that is not blank: one out for a line that closes
/// a block, then one in for a line that opens one.
pub open spec fn level_after(level: nat, t: TokenType) -> nat {
    let l1: nat = if closes_level(t) && level > 0 {
        (level - 1) as nat
    } else {
        level
    };
    if opens_level(t) {
        l1 + 1
    } else {
        l1
    }
}

/// The token of a line, read from its trimmed text.
pub open spec fn line_token(line: Seq<char>) -> TokenType {
    tokenize_spec(text::trim(text::trim(line)))
}

/// The indentation level at line `k`, from the lines `i` to `k - 1`.
pub open spec fn level_before(ls: Seq<Seq<char>>, i: int, k: int, level: nat) -> nat
    decreases k - i,
{
    if i < 0 || i >= k || i >= ls.len() {
        level
    } else if text::trim(ls[i]).len() == 0 {
        level_before(ls, i + 1, k, level)
    } else {
        level_before(ls, i + 1, k, level_after(level, line_token(ls[i])))
    }
}

/// The character at which the first `b` bytes of `line` end, if `b` falls
/// between characters.
pub open spec fn char_at_byte(line: Seq<char>, b: int, i: int) -> Option<int>
    decreases line.len() + 1 - i,
{
    if i < 0 || i > line.len() {
        None
    } else if utf8_len(line.take(i)) == b {
        Some(i)
    } else {
        char_at_byte(line, b, i + 1)
    }
}

/// The edit for line `k`, if it needs one: the selected part of the line
/// (from `start_char` on the first line of the selection, up to `end_char` on
/// its last) replaced by the line re-indented when the whole line is
/// selected, else by the selected text trimmed. `None` inside when the
/// selected part does not fall between characters.
pub open spec fn range_line_edit(line: Seq<char>, k: int, level: nat, unit: Seq<char>, sel: Range) -> Option<Option<(Range, Seq<char>)>> {
    let t = text::trim(line);
    let f = rep(unit, level) + t;
    if line == f {
        Some(None)
    } else {
        let n = utf8_len(line) as int;
        let s = if k == sel.start.line {
            sel.start.character as int
        } else {
            0
        };
        let e = if k == sel.end.line {
            if sel.end.character < n {
                sel.end.character as int
            } else {
                n
            }
        } else {
            n
        };
        let range = Range {
            start: Position { line: k as u32, character: s as u32 },
            end: Position { line: k as u32, character: e as u32 },
        };
        if s == 0 && e == n {
            Some(Some((range, f)))
        } else {
            match (char_at_byte(line, s, 0), char_at_byte(line, e, 0)) {
                (Some(a), Some(z)) => if a <= z {
                    Some(Some((range, text::trim(line.subrange(a, z)))))
                } else {
                    None
                },
                _ => None,
            }
        }
    }
}

/// The edits for lines `k` to `last` at indentation `level`; `None` when a
/// selected part does not fall between characters.
pub open spec fn range_edits_from(ls: Seq<Seq<char>>, k: int, last: int, level: nat, unit: Seq<char>, sel: Range) -> Option<Seq<(Range, Seq<char>)>>
    decreases last + 1 - k,
{
    if k < 0 || k > last {
        Some(seq![])
    } else if k >= ls.len() || text::trim(ls[k]).len() == 0 {
        range_edits_from(ls, k + 1, last, level, unit, sel)
    } else {
        let tt = line_token(ls[k]);
        let l1: nat = if closes_level(tt) && level > 0 {
            (level - 1) as nat
        } else {
            level
        };
        let l2 = if opens_level(tt) {
            l1 + 1
        } else {
            l1
        };
        match range_line_edit(ls[k], k, l1, unit, sel) {
            Some(here) => match range_edits_from(ls, k + 1, last, l2, unit, sel) {
                Some(rest) => match here {
                    Some(e) => Some(seq![e] + rest),
                    None => Some(rest),
                },
                None => None,
            },
            None => None,
        }
    }
}

/// The edits that format the selection `sel`; `None` when a selected part
/// of a line that needs them does not fall between characters.
pub open spec fn range_edits(content: Seq<char>, sel: Range, o: FormattingOptions) -> Option<Seq<(Range, Seq<char>)>> {
    let ls = text::lines(content);
    let last_line: int = if ls.len() > 0 {
        ls.len() - 1
    } else {
        0
    };
    let last = if (sel.end.line as int) < last_line {
        sel.end.line as int
    } else {
        last_line
    };
    range_edits_from(
        ls,
        sel.start.line as int,
        last,
        level_before(ls, 0, sel.start.line as int, 0),
        indent_unit(o),
        sel,
    )
}

/// The character where the first `b` bytes end, if any.
pub(crate) fn char_at_byte_exec(line: &[char], b: usize) -> (r: Option<usize>)
    requires
        line@.len() <= MAX_DOCUMENT_CHARS,
    ensures
        match r {
            Some(i) => char_at_byte(line@, b as int, 0) == Some(i as int) && i <= line@.len(),
            None => char_at_byte(line@, b as int, 0) is None,
        },
{
    let mut acc: usize = 0;
    let mut i: usize = 0;
    assert(line@.take(0) =~= Seq::<char>::empty());
    while i <= line.len()
        invariant
            i <= line@.len() + 1,
            line@.len() <= MAX_DOCUMENT_CHARS,
            i <= line@.len() ==> acc == utf8_len(line@.take(i as int)),
            acc <= 4 * i,
            char_at_byte(line@, b as int, 0) == char_at_byte(line@, b as int, i as int),
        decreases line@.len() + 1 - i,
    {
        if acc == b {
            return Some(i);
        }
        if i == line.len() {
            assert(char_at_byte(line@, b as int, i + 1) is None);
            return None;
        }
        assert(line@.take(i + 1).drop_last() =~= line@.take(i as int));
        let c = line[i] as u32;
        let w: usize = if c < 0x80 {
            1
        } else if c < 0x800 {
            2
        } else if c < 0x10000 {
            3
        } else {
            4
        };
        acc = acc + w;
        i = i + 1;
    }
    None
}

/// The edit for one line of the selection, if it needs one.
fn range_line_edit_exec(line: &[char], k: usize, level: usize, unit: &[char], sel: Range) -> (r: Option<Option<TextEdit>>)
    requires
        line@.len() <= MAX_DOCUMENT_CHARS,
        k <= MAX_DOCUMENT_CHARS,
    ensures
        match (r, range_line_edit(line@, k as int, level as nat, unit@, sel)) {
            (Some(None), Some(None)) => true,
            (Some(Some(e)), Some(Some(x))) => e@ == x,
            (None, None) => true,
            _ => false,
        },
{
    let t = trim_chars(line);
    let mut f = repeat_chars(unit, level);
    push_all(&mut f, t);
    if eq_chars(line, f.as_slice()) {
        return Some(None);
    }
    proof {
        text::lemma_utf8_len_bound(line@);
    }
    let n = utf8_len_sat(line);
    let s: usize = if k as u32 == sel.start.line {
        sel.start.character as usize
    } else {
        0
    };
    let e: usize = if k as u32 == sel.end.line {
        if (sel.end.character as usize) < n {
            sel.end.character as usize
        } else {
            n
        }
    } else {
        n
    };
    let range = Range {
        start: Position { line: k as u32, character: s as u32 },
        end: Position { line: k as u32, character: e as u32 },
    };
    if s == 0 && e == n {
        return Some(Some(TextEdit { range, new_text: string_of(f.as_slice()) }));
    }
    match (char_at_byte_exec(line, s), char_at_byte_exec(line, e)) {
        (Some(a), Some(z)) => {
            if a <= z {
                let part = trim_chars(&line[a..z]);
                Some(Some(TextEdit { range, new_text: string_of(part) }))
            } else {
                None
            }
        },
        _ => None,
    }
}

/// Formats only the lines of `range`: each line that is not blank is
/// re-indented by the blocks around it (the level read from the lines above
/// the range), and where it differs the selected part of it is replaced — by
/// the whole re-indented line when all of it is selected, else by the
/// selected text trimmed.
pub fn format_range(content: &str, range: Range, options: &FormattingOptions) -> (r: Vec<TextEdit>)
    requires
        content@.len() <= MAX_DOCUMENT_CHARS,
        range_edits(content@, range, *options) is Some,
    ensures
        edits_view(r@) == range_edits(content@, range, *options)->0,
{
    let lines = bounded_lines(content);
    let ghost ls = view_all(lines@);
    let space: Vec<char> = vec![' '];
    assert(space@ =~= seq![' ']);
    let unit: Vec<char> = if options.insert_spaces {
        repeat_chars(space.as_slice(), options.tab_size as usize)
    } else {
        vec!['\t']
    };
    assert(unit@ =~= indent_unit(*options));
    let first = range.start.line as usize;
    let mut level: usize = 0;
    let mut i: usize = 0;
    while i < first && i < lines.len()
        invariant
            i <= first,
            i <= lines@.len(),
            level <= i,
            ls == view_all(lines@),
            level_before(ls, 0, first as int, 0) == level_before(ls, i as int, first as int, level as nat),
        decreases first - i,
    {
        assert(ls[i as int] == lines@[i as int]@);
        let t = trim_chars(lines[i].as_slice());
        if t.len() > 0 {
            let tt = tokenize_trimmed_chars(trim_chars(t));
            if (tt == TokenType::EndIf || tt == TokenType::Else || tt == TokenType::ElseIf || tt
                == TokenType::EndWhile || tt == TokenType::EndFunction || tt
                == TokenType::EndButtonDef || tt == TokenType::EndExtension || tt
                == TokenType::EndStage || tt == TokenType::EndRemBlock || tt
                == TokenType::EndString) && level > 0 {
                level = level - 1;
            }
            if tt == TokenType::If || tt == TokenType::ElseIf || tt == TokenType::Else || tt
                == TokenType::While || tt == TokenType::Function || tt == TokenType::ButtonDef
                || tt == TokenType::Extension || tt == TokenType::Stage || tt
                == TokenType::RemBlock || tt == TokenType::StringBlock || tt
                == TokenType::StringLnBlock {
                level = level + 1;
            }
        }
        i = i + 1;
    }
    let last_line: usize = if lines.len() > 0 {
        lines.len() - 1
    } else {
        0
    };
    let last: usize = if (range.end.line as usize) < last_line {
        range.end.line as usize
    } else {
        last_line
    };
    let ghost want = range_edits(content@, range, *options)->0;
    let ghost mut done: Seq<(Range, Seq<char>)> = seq![];
    let mut edits: Vec<TextEdit> = Vec::new();
    let mut k: usize = first;
    while k <= last
        invariant
            first <= k,
            k <= last + 1 || k == first,
            last < lines@.len() || (last == 0 && lines@.len() == 0),
            level <= k,
            ls == view_all(lines@),
            ls == text::lines(content@),
            lines@.len() <= MAX_DOCUMENT_CHARS,
            forall|m: int| 0 <= m < lines@.len() ==> (#[trigger] lines@[m])@.len() <= MAX_DOCUMENT_CHARS,
            unit@ == indent_unit(*options),
            range_edits_from(ls, k as int, last as int, level as nat, unit@, range) is Some,
            done + range_edits_from(ls, k as int, last as int, level as nat, unit@, range)->0 == want,
            edits_view(edits@) == done,
        decreases last + 1 - k,
    {
        if k < lines.len() {
            let line = lines[k].as_slice();
            assert(ls[k as int] == line@);
            let t = trim_chars(line);
            if t.len() > 0 {
                let tt = tokenize_trimmed_chars(trim_chars(t));
                if (tt == TokenType::EndIf || tt == TokenType::Else || tt == TokenType::ElseIf
                    || tt == TokenType::EndWhile || tt == TokenType::EndFunction || tt
                    == TokenType::EndButtonDef || tt == TokenType::EndExtension || tt
                    == TokenType::EndStage || tt == TokenType::EndRemBlock || tt
                    == TokenType::EndString) && level > 0 {
                    level = level - 1;
                }
                match range_line_edit_exec(line, k, level, unit.as_slice(), range) {
                    Some(Some(e)) => {
                        proof {
                            done = done.push(e@);
                        }
                        let ghost before = edits_view(edits@);
                        edits.push(e);
                        assert(edits_view(edits@) =~= before.push(e@));
                    },
                    Some(None) => {},
                    None => {
                        assert(false);
                    },
                }
                if tt == TokenType::If || tt == TokenType::ElseIf || tt == TokenType::Else || tt
                    == TokenType::While || tt == TokenType::Function || tt
                    == TokenType::ButtonDef || tt == TokenType::Extension || tt
                    == TokenType::Stage || tt == TokenType::RemBlock || tt
                    == TokenType::StringBlock || tt == TokenType::StringLnBlock {
                    level = level + 1;
                }
            }
        }
        k = k + 1;
    }
    assert(done =~= want);
    edits
}

} // verus!
