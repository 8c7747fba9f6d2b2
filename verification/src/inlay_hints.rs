//! Inlay hints: the lines whose delay an editor annotates in seconds.
use vstd::prelude::*;

use crate::numbers::{parse_unsigned, parse_unsigned_chars};
use crate::references::bounded_lines;
use crate::semantic_tokens::MAX_DOCUMENT_CHARS;
use crate::text::{self, starts_with_str, trim_chars, utf8_len, utf8_len_sat, view_all};
use crate::text_edit::{Position, Range};

verus! {

/// A `DELAY` line to annotate: the end of the line and the delay in
/// milliseconds.
#[derive(Debug, Clone, Copy, PartialEq, Eq, Structural)]
pub struct DelayHint {
    pub position: Position,
    pub millis: u64,
}

/// The delay a line sets: a trimmed line `DELAY ` followed by a number of
/// milliseconds that fits in 64 bits.
pub open spec fn line_delay(line: Seq<char>) -> Option<nat> {
    let t = text::trim(line);
    if text::starts_with(t, "DELAY "@) {
        parse_unsigned(text::trim(t.skip(6)), u64::MAX as nat)
    } else {
        None
    }
}

/// The hints of the lines from `k` on that lie within the lines of `range`.
pub open spec fn hints_from(ls: Seq<Seq<char>>, k: int, range: Range) -> Seq<DelayHint>
    decreases ls.len() - k,
{
    if k < 0 || k >= ls.len() {
        seq![]
    } else {
        let rest = hints_from(ls, k + 1, range);
        let n = k as u32;
        if n < range.start.line || n > range.end.line {
            rest
        } else {
            match line_delay(ls[k]) {
                Some(ms) => seq![
                    DelayHint {
                        position: Position { line: n, character: utf8_len(ls[k]) as u32 },
                        millis: ms as u64,
                    },
                ] + rest,
                None => rest,
            }
        }
    }
}

/// The delay hints of a script within the lines of `range`.
pub open spec fn delay_hints_spec(content: Seq<char>, range: Range) -> Seq<DelayHint> {
    hints_from(text::lines(content), 0, range)
}

/// The `DELAY` lines within the lines of `range` whose delay is a number,
/// each with the end of the line (in bytes) and the delay in milliseconds.
pub fn delay_hints(content: &str, range: Range) -> (r: Vec<DelayHint>)
    requires
        content@.len() <= MAX_DOCUMENT_CHARS,
    ensures
        r@ == delay_hints_spec(content@, range),
{
    let lines = bounded_lines(content);
    let ghost ls = view_all(lines@);
    let mut hints: Vec<DelayHint> = Vec::new();
    let mut k: usize = 0;
    while k < lines.len()
        invariant
            k <= lines@.len(),
            ls == view_all(lines@),
            ls == text::lines(content@),
            lines@.len() <= MAX_DOCUMENT_CHARS,
            forall|m: int| 0 <= m < lines@.len() ==> (#[trigger] lines@[m])@.len() <= MAX_DOCUMENT_CHARS,
            hints@ + hints_from(ls, k as int, range) == hints_from(ls, 0, range),
        decreases lines@.len() - k,
    {
        let line = lines[k].as_slice();
        assert(ls[k as int] == line@);
        let n = k as u32;
        if !(n < range.start.line || n > range.end.line) {
            let t = trim_chars(line);
            if starts_with_str(t, "DELAY ") {
                proof {
                    reveal_strlit("DELAY ");
                }
                let rest = &t[6..t.len()];
                assert(rest@ =~= t@.skip(6));
                match parse_unsigned_chars(trim_chars(rest), u64::MAX) {
                    Some(ms) => {
                        proof {
                            text::lemma_utf8_len_bound(line@);
                        }
                        let b = utf8_len_sat(line);
                        let h = DelayHint {
                            position: Position { line: n, character: b as u32 },
                            millis: ms,
                        };
                        let ghost before = hints@;
                        hints.push(h);
                        assert(hints@ + hints_from(ls, k + 1, range) =~= before + hints_from(
                            ls,
                            k as int,
                            range,
                        ));
                    },
                    None => {},
                }
            }
        }
        k = k + 1;
    }
    assert(hints@ + hints_from(ls, k as int, range) =~= hints@);
    hints
}

} // verus!
