//! Whole-document formatting for an editor: each line re-indented by the
//! blocks around it, as a list of edits.
use vstd::prelude::*;

use crate::lexer::{tokenize_spec, tokenize_trimmed_chars, TokenType};
use crate::on_type_formatting::{indent_unit, push_all, rep, repeat_chars, FormattingOptions};
use crate::semantic_tokens::MAX_DOCUMENT_CHARS;
use crate::text::{self, chars_of, eq_chars, split_lines, string_of, trim_chars, utf8_len, utf8_len_sat, view_all};
use crate::text_edit::{edits_view, Position, Range, TextEdit};

verus! {

/// A line with this token is written one level out.
pub open spec fn closes_level(t: TokenType) -> bool {
    ||| t == TokenType::EndIf
    ||| t == TokenType::Else
    ||| t == TokenType::ElseIf
    ||| t == TokenType::EndWhile
    ||| t == TokenType::EndFunction
    ||| t == TokenType::EndButtonDef
    ||| t == TokenType::EndExtension
    ||| t == TokenType::EndStage
    ||| t == TokenType::EndRemBlock
    ||| t == TokenType::EndString
}

/// The lines after a line with this token go one level in.
pub open spec fn opens_level(t: TokenType) -> bool {
    ||| t == TokenType::If
    ||| t == TokenType::ElseIf
    ||| t == TokenType::Else
    ||| t == TokenType::While
    ||| t == TokenType::Function
    ||| t == TokenType::ButtonDef
    ||| t == TokenType::Extension
    ||| t == TokenType::Stage
    ||| t == TokenType::RemBlock
    ||| t == TokenType::StringBlock
    ||| t == TokenType::StringLnBlock
}

/// The whole of line `k`.
pub open spec fn whole_line(k: int, line: Seq<char>) -> Range {
    Range {
        start: Position { line: k as u32, character: 0 },
        end: Position { line: k as u32, character: utf8_len(line) as u32 },
    }
}

/// The edits for the lines from `k` on, `level` levels in: each line that is
/// not blank is written trimmed after its indentation, and replaced where
/// that differs from the line.
pub open spec fn format_from(ls: Seq<Seq<char>>, k: int, level: nat, unit: Seq<char>) -> Seq<
    (Range, Seq<char>),
>
    decreases ls.len() - k,
{
    if k < 0 || k >= ls.len() {
        seq![]
    } else {
        let t_text = text::trim(ls[k]);
        if t_text.len() == 0 {
            format_from(ls, k + 1, level, unit)
        } else {
            let t = tokenize_spec(text::trim(t_text));
            let l1: nat = if closes_level(t) && level > 0 {
                (level - 1) as nat
            } else {
                level
            };
            let f = rep(unit, l1) + t_text;
            let l2 = if opens_level(t) {
                l1 + 1
            } else {
                l1
            };
            let rest = format_from(ls, k + 1, l2, unit);
            if ls[k] != f {
                seq![(whole_line(k, ls[k]), f)] + rest
            } else {
                rest
            }
        }
    }
}

/// The edits that format a document.
pub open spec fn document_edits(content: Seq<char>, o: FormattingOptions) -> Seq<(Range, Seq<char>)> {
    format_from(text::lines(content), 0, 0, indent_unit(o))
}

/// Edits that re-indent every line of `content` by the blocks around it
/// (one level in after a line that opens a block, one level out for a line
/// that ends or continues one); blank lines and lines already right are left
/// alone.
pub fn format_document(content: &str, options: &FormattingOptions) -> (r: Vec<TextEdit>)
    requires
        content@.len() <= MAX_DOCUMENT_CHARS,
    ensures
        edits_view(r@) == document_edits(content@, *options),
{
    let c = chars_of(content);
    let lines = split_lines(c.as_slice());
    proof {
        text::lemma_lines_bound(c@);
    }
    let space: Vec<char> = vec![' '];
    assert(space@ =~= seq![' ']);
    let unit: Vec<char> = if options.insert_spaces {
        repeat_chars(space.as_slice(), options.tab_size as usize)
    } else {
        vec!['\t']
    };
    assert(unit@ =~= indent_unit(*options));
    let mut edits: Vec<TextEdit> = Vec::new();
    let mut level: usize = 0;
    let mut k: usize = 0;
    while k < lines.len()
        invariant
            k <= lines@.len(),
            level <= k,
            view_all(lines@) == text::lines(c@),
            c@ == content@,
            c@.len() <= MAX_DOCUMENT_CHARS,
            lines@.len() <= c@.len(),
            forall|m: int|
                0 <= m < text::lines(c@).len() ==> (#[trigger] text::lines(c@)[m]).len()
                    <= c@.len(),
            unit@ == indent_unit(*options),
            edits_view(edits@) + format_from(view_all(lines@), k as int, level as nat, unit@)
                == format_from(view_all(lines@), 0, 0, unit@),
        decreases lines@.len() - k,
    {
        let line = lines[k].as_slice();
        assert(line@ == text::lines(c@)[k as int]);
        let t_text = trim_chars(line);
        if t_text.len() > 0 {
            let t = tokenize_trimmed_chars(trim_chars(t_text));
            if (t == TokenType::EndIf || t == TokenType::Else || t == TokenType::ElseIf || t
                == TokenType::EndWhile || t == TokenType::EndFunction || t
                == TokenType::EndButtonDef || t == TokenType::EndExtension || t
                == TokenType::EndStage || t == TokenType::EndRemBlock || t == TokenType::EndString)
                && level > 0 {
                level = level - 1;
            }
            let mut f = repeat_chars(unit.as_slice(), level);
            push_all(&mut f, t_text);
            if !eq_chars(line, f.as_slice()) {
                proof {
                    text::lemma_utf8_len_bound(line@);
                }
                let n = utf8_len_sat(line);
                let e = TextEdit {
                    range: Range {
                        start: Position { line: k as u32, character: 0 },
                        end: Position { line: k as u32, character: n as u32 },
                    },
                    new_text: string_of(f.as_slice()),
                };
                let ghost before = edits_view(edits@);
                edits.push(e);
                assert(edits_view(edits@) =~= before.push(e@));
            }
            if t == TokenType::If || t == TokenType::ElseIf || t == TokenType::Else || t
                == TokenType::While || t == TokenType::Function || t == TokenType::ButtonDef || t
                == TokenType::Extension || t == TokenType::Stage || t == TokenType::RemBlock || t
                == TokenType::StringBlock || t == TokenType::StringLnBlock {
                level = level + 1;
            }
        }
        k = k + 1;
    }
    edits
}

} // verus!
