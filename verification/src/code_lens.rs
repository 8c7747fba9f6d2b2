//! Code lenses: the action buttons an editor shows above a script and above
//! each function definition.
use vstd::prelude::*;

use crate::on_type_formatting::push_all;
use crate::semantic_tokens::MAX_DOCUMENT_CHARS;
use crate::text::{
    self, chars_of, ends_with_str, split_lines, split_words, starts_with_str, string_of,
    trim_chars, utf8_len, utf8_len_sat, view_all,
};
use crate::text_edit::{at, Position, Range};

verus! {

/// An editor command with its arguments.
#[derive(Debug)]
pub struct Command {
    pub title: String,
    pub command: String,
    pub arguments: Vec<String>,
}

/// A button over a range of the script.
#[derive(Debug)]
pub struct CodeLens {
    pub range: Range,
    pub command: Option<Command>,
}

/// A lens as plain values: its range, title, command and arguments.
pub type LensView = (Range, Seq<char>, Seq<char>, Seq<Seq<char>>);

/// The view of a lens that carries a command.
pub open spec fn lens_view(l: CodeLens) -> Option<LensView> {
    match l.command {
        Some(c) => Some((l.range, c.title@, c.command@, c.arguments@.map_values(|a: String| a@))),
        None => None,
    }
}

/// `s` without every `()` it ends with (`str::trim_end_matches`).
pub open spec fn strip_parens(s: Seq<char>) -> Seq<char>
    decreases s.len(),
{
    if s.len() >= 2 && s.subrange(s.len() - 2, s.len() as int) == "()"@ {
        strip_parens(s.take(s.len() - 2))
    } else {
        s
    }
}

/// The name a `FUNCTION` line defines: the first word after the keyword,
/// without trailing `()` (empty when there is none).
pub open spec fn defined_name(t: Seq<char>) -> Seq<char> {
    let ws = text::words(t.skip(8));
    strip_parens(
        if ws.len() > 0 {
            ws[0]
        } else {
            seq![]
        },
    )
}

/// The lenses of the lines from `k` on: one per line that starts (trimmed)
/// with `FUNCTION` and names a function.
pub open spec fn function_lenses(ls: Seq<Seq<char>>, k: int, uri: Seq<char>) -> Seq<LensView>
    decreases ls.len() - k,
{
    if k < 0 || k >= ls.len() {
        seq![]
    } else {
        let t = text::trim(ls[k]);
        let rest = function_lenses(ls, k + 1, uri);
        if text::starts_with(t, "FUNCTION"@) && defined_name(t).len() > 0 {
            let name = defined_name(t);
            seq![
                (
                    Range {
                        start: Position { line: k as u32, character: 0 },
                        end: Position { line: k as u32, character: utf8_len(ls[k]) as u32 },
                    },
                    "▶ Call "@ + name + "()"@,
                    "duckyscript.runFunction"@,
                    seq![uri, name],
                ),
            ] + rest
        } else {
            rest
        }
    }
}

/// The lenses of a script: a compile button on the first line when the
/// script is not blank, then a call button on each function definition.
pub open spec fn code_lenses(content: Seq<char>, uri: Seq<char>) -> Seq<LensView> {
    let top: Seq<LensView> = if text::trim(content).len() > 0 {
        seq![
            (
                at(Position { line: 0, character: 0 }),
                "▶ Compile DuckyScript"@,
                "duckyscript.compile"@,
                seq![uri],
            ),
        ]
    } else {
        seq![]
    };
    top + function_lenses(text::lines(content), 0, uri)
}

pub(crate) fn strip_parens_exec(s: &[char]) -> (r: &[char])
    ensures
        r@ == strip_parens(s@),
        r@.len() <= s@.len(),
{
    let mut e = s.len();
    assert(s@.take(e as int) =~= s@);
    while e >= 2 && ends_with_str(&s[0..e], "()")
        invariant
            e <= s@.len(),
            strip_parens(s@) == strip_parens(s@.take(e as int)),
        decreases e,
    {
        proof {
            reveal_strlit("()");
            assert(s@.take(e as int).subrange(e - 2, e as int) =~= "()"@);
            assert(s@.take(e as int).take(e - 2) =~= s@.take(e - 2));
        }
        e = e - 2;
    }
    proof {
        reveal_strlit("()");
        if e >= 2 {
            assert(s@.take(e as int).subrange(e - 2, e as int) != "()"@) by {
                assert(s@.subrange(0, e as int) =~= s@.take(e as int));
                assert(s@.take(e as int).subrange(e - 2, e as int) =~= s@.subrange(0, e as int).subrange(
                    e - 2,
                    e as int,
                ));
            }
        }
    }
    &s[0..e]
}

fn lens(range: Range, title: Vec<char>, command: &str, arguments: Vec<String>) -> (r: CodeLens)
    ensures
        lens_view(r) == Some((range, title@, command@, arguments@.map_values(|a: String| a@))),
{
    CodeLens {
        range,
        command: Some(
            Command {
                title: string_of(title.as_slice()),
                command: string_of(chars_of(command).as_slice()),
                arguments,
            },
        ),
    }
}

/// The views of a list of lenses that all carry commands.
pub open spec fn lenses_view(v: Seq<CodeLens>) -> Seq<Option<LensView>> {
    v.map_values(|l: CodeLens| lens_view(l))
}

/// The code lenses of a script: "Compile" on the first line, when the script
/// is not blank, and "Call" on each line that defines a function.
pub fn get_code_lenses(content: &str, uri: &str) -> (r: Vec<CodeLens>)
    requires
        content@.len() <= MAX_DOCUMENT_CHARS,
    ensures
        lenses_view(r@) == code_lenses(content@, uri@).map_values(|l: LensView| Some(l)),
{
    let c = chars_of(content);
    let mut lenses: Vec<CodeLens> = Vec::new();
    let ghost want = code_lenses(content@, uri@).map_values(|l: LensView| Some(l));
    if trim_chars(c.as_slice()).len() > 0 {
        let args = vec![string_of(chars_of(uri).as_slice())];
        assert(args@.map_values(|a: String| a@) =~= seq![uri@]);
        let l = lens(
            Range { start: Position { line: 0, character: 0 }, end: Position { line: 0, character: 0 } },
            chars_of("▶ Compile DuckyScript"),
            "duckyscript.compile",
            args,
        );
        lenses.push(l);
    }
    let ghost top_len = lenses@.len();
    assert(lenses_view(lenses@) =~= want.take(top_len as int));
    let lines = split_lines(c.as_slice());
    proof {
        text::lemma_lines_bound(c@);
    }
    let mut k: usize = 0;
    while k < lines.len()
        invariant
            k <= lines@.len(),
            view_all(lines@) == text::lines(c@),
            c@ == content@,
            c@.len() <= MAX_DOCUMENT_CHARS,
            lines@.len() <= c@.len(),
            forall|m: int|
                0 <= m < text::lines(c@).len() ==> (#[trigger] text::lines(c@)[m]).len()
                    <= c@.len(),
            want == code_lenses(content@, uri@).map_values(|l: LensView| Some(l)),
            want.len() == top_len + function_lenses(text::lines(c@), 0, uri@).len(),
            lenses_view(lenses@) + function_lenses(text::lines(c@), k as int, uri@).map_values(
                |l: LensView| Some(l),
            ) == want,
        decreases lines@.len() - k,
    {
        let line = lines[k].as_slice();
        assert(line@ == text::lines(c@)[k as int]);
        let t = trim_chars(line);
        let ghost rest = function_lenses(text::lines(c@), k + 1, uri@);
        if starts_with_str(t, "FUNCTION") {
            proof {
                reveal_strlit("FUNCTION");
            }
            let after = &t[8..t.len()];
            assert(after@ =~= t@.skip(8));
            let ws = split_words(after);
            let first: Vec<char> = if ws.len() > 0 {
                let mut v: Vec<char> = Vec::new();
                push_all(&mut v, ws[0].as_slice());
                v
            } else {
                Vec::new()
            };
            assert(first@ =~= (if text::words(t@.skip(8)).len() > 0 {
                text::words(t@.skip(8))[0]
            } else {
                seq![]
            }));
            let name = strip_parens_exec(first.as_slice());
            if name.len() > 0 {
                let mut title = chars_of("▶ Call ");
                push_all(&mut title, name);
                let close = chars_of("()");
                push_all(&mut title, close.as_slice());
                let nm = string_of(name);
                let args = vec![string_of(chars_of(uri).as_slice()), nm];
                assert(args@.map_values(|a: String| a@) =~= seq![uri@, name@]);
                proof {
                    text::lemma_utf8_len_bound(line@);
                }
                let n = utf8_len_sat(line);
                let l = lens(
                    Range {
                        start: Position { line: k as u32, character: 0 },
                        end: Position { line: k as u32, character: n as u32 },
                    },
                    title,
                    "duckyscript.runFunction",
                    args,
                );
                let ghost before = lenses_view(lenses@);
                lenses.push(l);
                assert(lenses_view(lenses@) =~= before.push(lens_view(l)));
                assert(before.push(lens_view(l)) + rest.map_values(|x: LensView| Some(x)) =~= before
                    + function_lenses(text::lines(c@), k as int, uri@).map_values(
                    |x: LensView| Some(x),
                ));
            } else {
                assert(function_lenses(text::lines(c@), k as int, uri@) == rest);
            }
        } else {
            assert(function_lenses(text::lines(c@), k as int, uri@) == rest);
        }
        k = k + 1;
    }
    lenses
}

} // verus!
