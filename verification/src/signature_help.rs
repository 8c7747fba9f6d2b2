//! Signature help: the signature of the function or command being typed.
use vstd::prelude::*;

use crate::on_type_formatting::push_all;
use crate::range_formatting::{char_at_byte, char_at_byte_exec};
use crate::references::bounded_lines;
use crate::semantic_tokens::MAX_DOCUMENT_CHARS;
use crate::text::{self, chars_of, split_words, starts_with_chars, starts_with_str, string_of, trim_chars, utf8_len, utf8_len_sat, view_all};
use crate::text_edit::Position;

verus! {

/// A parameter of a signature, with what it is.
#[derive(Debug)]
pub struct ParameterInformation {
    pub label: String,
    pub documentation: Option<String>,
}

/// A signature, with what it does and its parameters.
#[derive(Debug)]
pub struct SignatureInformation {
    pub label: String,
    pub documentation: Option<String>,
    pub parameters: Option<Vec<ParameterInformation>>,
    pub active_parameter: Option<u32>,
}

/// The signatures to show and which one and which parameter are active.
#[derive(Debug)]
pub struct SignatureHelp {
    pub signatures: Vec<SignatureInformation>,
    pub active_signature: Option<u32>,
    pub active_parameter: Option<u32>,
}

/// A signature as plain values: its label, its documentation and its one
/// parameter (label and documentation), if it has parameters.
pub type SignatureView = (Seq<char>, Seq<char>, Option<(Seq<char>, Seq<char>)>);

/// Whether `s` is the signature `v`.
pub open spec fn signature_is(s: SignatureInformation, v: SignatureView) -> bool {
    &&& s.label@ == v.0
    &&& match s.documentation {
        Some(d) => d@ == v.1,
        None => false,
    }
    &&& match (s.parameters, v.2) {
        (Some(ps), Some((l, d))) => ps@.len() == 1 && ps@[0].label@ == l && match ps@[0].documentation {
            Some(x) => x@ == d,
            None => false,
        },
        (None, None) => true,
        _ => false,
    }
    &&& s.active_parameter is None
}

/// The character where the first `min(c, bytes)` bytes of `line` end, if
/// that falls between characters.
pub open spec fn cut_point(line: Seq<char>, c: int) -> Option<int> {
    let n = utf8_len(line) as int;
    char_at_byte(line, if c < n { c } else { n }, 0)
}

/// The position of the last `(` in `s`.
pub open spec fn last_paren(s: Seq<char>) -> Option<int>
    decreases s.len(),
{
    if s.len() == 0 {
        None
    } else if s.last() == '(' {
        Some(s.len() - 1)
    } else {
        last_paren(s.drop_last())
    }
}

/// The function being called at the cursor: the last word before the last
/// `(` before the cursor.
pub open spec fn call_at(before: Seq<char>) -> Option<Seq<char>> {
    match last_paren(before) {
        Some(p) => {
            let ws = text::words(before.take(p));
            if ws.len() > 0 {
                Some(ws.last())
            } else {
                None
            }
        },
        None => None,
    }
}

/// The signature a `FUNCTION` line from `k` on gives for `name`: the text
/// after the keyword, when it starts with the name.
pub open spec fn user_signature(ls: Seq<Seq<char>>, k: int, name: Seq<char>) -> Option<SignatureView>
    decreases ls.len() - k,
{
    if k < 0 || k >= ls.len() {
        None
    } else {
        let t = text::trim(ls[k]);
        let sig = text::trim(t.skip(8));
        if text::starts_with(t, "FUNCTION"@) && text::starts_with(sig, name) {
            Some((sig, "User-defined function: "@ + name, None))
        } else {
            user_signature(ls, k + 1, name)
        }
    }
}

/// The signature shown at `pos`: that of the user function being called,
/// else that of the command the line starts with.
pub open spec fn signature_at(content: Seq<char>, pos: Position) -> Option<SignatureView> {
    let ls = text::lines(content);
    if pos.line >= ls.len() {
        None
    } else {
        let line = ls[pos.line as int];
        let before = line.take(cut_point(line, pos.character as int)->0);
        let user = match call_at(before) {
            Some(f) => user_signature(ls, 0, f),
            None => None,
        };
        if user is Some {
            user
        } else {
            let t = text::trim(before);
            if text::starts_with(t, "DELAY"@) {
                Some(
                    (
                        "DELAY milliseconds"@,
                        "Wait for specified milliseconds (1-60000)"@,
                        Some(("milliseconds"@, "Time to wait in milliseconds"@)),
                    ),
                )
            } else if text::starts_with(t, "STRING"@) {
                Some(("STRING text"@, "Type a string of characters"@, Some(("text"@, "Text to type"@))))
            } else if text::starts_with(t, "STRINGLN"@) {
                Some(
                    (
                        "STRINGLN text"@,
                        "Type a string followed by ENTER"@,
                        Some(("text"@, "Text to type"@)),
                    ),
                )
            } else {
                None
            }
        }
    }
}

/// The cursor falls inside a character of its line.
pub open spec fn cursor_splits_char(content: Seq<char>, pos: Position) -> bool {
    let ls = text::lines(content);
    pos.line < ls.len() && cut_point(ls[pos.line as int], pos.character as int) is None
}

fn last_paren_exec(s: &[char]) -> (r: Option<usize>)
    ensures
        match r {
            Some(p) => last_paren(s@) == Some(p as int) && p < s@.len(),
            None => last_paren(s@) is None,
        },
{
    let mut k = s.len();
    assert(s@.take(k as int) =~= s@);
    while k > 0
        invariant
            k <= s@.len(),
            last_paren(s@) == last_paren(s@.take(k as int)),
        decreases k,
    {
        if s[k - 1] == '(' {
            return Some(k - 1);
        }
        assert(s@.take(k as int).drop_last() =~= s@.take(k - 1));
        k = k - 1;
    }
    None
}

fn extract_function_call_at_position(before: &[char]) -> (r: Option<Vec<char>>)
    ensures
        match r {
            Some(f) => call_at(before@) == Some(f@),
            None => call_at(before@) is None,
        },
{
    match last_paren_exec(before) {
        Some(p) => {
            let part = &before[0..p];
            assert(part@ =~= before@.take(p as int));
            let ws = split_words(part);
            if ws.len() > 0 {
                let mut v: Vec<char> = Vec::new();
                push_all(&mut v, ws[ws.len() - 1].as_slice());
                assert(v@ =~= ws[ws.len() - 1]@);
                Some(v)
            } else {
                None
            }
        },
        None => None,
    }
}

fn find_function_signature(lines: &Vec<Vec<char>>, name: &[char]) -> (r: Option<SignatureInformation>)
    ensures
        match (r, user_signature(view_all(lines@), 0, name@)) {
            (Some(s), Some(v)) => signature_is(s, v),
            (None, None) => true,
            _ => false,
        },
{
    proof {
        reveal_strlit("FUNCTION");
    }
    let mut k: usize = 0;
    while k < lines.len()
        invariant
            k <= lines@.len(),
            user_signature(view_all(lines@), 0, name@) == user_signature(view_all(lines@), k as int, name@),
        decreases lines@.len() - k,
    {
        assert(view_all(lines@)[k as int] == lines@[k as int]@);
        let t = trim_chars(lines[k].as_slice());
        if starts_with_str(t, "FUNCTION") {
            proof {
                reveal_strlit("FUNCTION");
            }
            let rest = &t[8..t.len()];
            assert(rest@ =~= t@.skip(8));
            let sig = trim_chars(rest);
            if starts_with_chars(sig, name) {
                let mut doc = chars_of("User-defined function: ");
                push_all(&mut doc, name);
                return Some(
                    SignatureInformation {
                        label: string_of(sig),
                        documentation: Some(string_of(doc.as_slice())),
                        parameters: None,
                        active_parameter: None,
                    },
                );
            }
        }
        k = k + 1;
    }
    None
}

fn command_signature(label: &str, doc: &str, param: &str, param_doc: &str) -> (r: SignatureInformation)
    ensures
        signature_is(r, (label@, doc@, Some((param@, param_doc@)))),
{
    let p = ParameterInformation {
        label: param.to_owned(),
        documentation: Some(param_doc.to_owned()),
    };
    SignatureInformation {
        label: label.to_owned(),
        documentation: Some(doc.to_owned()),
        parameters: Some(vec![p]),
        active_parameter: None,
    }
}

/// The signature to show at `position`: that of the function defined in the
/// script and called before the cursor, else that of `DELAY` or `STRING`
/// when the line before the cursor starts with it.
pub fn get_signature_help(content: &str, position: Position) -> (r: Option<SignatureHelp>)
    requires
        content@.len() <= MAX_DOCUMENT_CHARS,
        !cursor_splits_char(content@, position),
    ensures
        match (r, signature_at(content@, position)) {
            (Some(h), Some(v)) => {
                &&& h.signatures@.len() == 1
                &&& signature_is(h.signatures@[0], v)
                &&& h.active_signature == Some(0u32)
                &&& h.active_parameter == Some(0u32)
            },
            (None, None) => true,
            _ => false,
        },
{
    let lines = bounded_lines(content);
    let ghost ls = view_all(lines@);
    let k = position.line as usize;
    if k >= lines.len() {
        return None;
    }
    let line = lines[k].as_slice();
    assert(ls[k as int] == line@);
    proof {
        text::lemma_utf8_len_bound(line@);
    }
    let n = utf8_len_sat(line);
    let c = position.character as usize;
    let cut = match char_at_byte_exec(line, if c < n { c } else { n }) {
        Some(i) => i,
        None => {
            return None;
        },
    };
    let before = &line[0..cut];
    assert(before@ =~= line@.take(cut as int));
    match extract_function_call_at_position(before) {
        Some(f) => match find_function_signature(&lines, f.as_slice()) {
            Some(sig) => {
                let signatures = vec![sig];
                return Some(
                    SignatureHelp { signatures, active_signature: Some(0), active_parameter: Some(0) },
                );
            },
            None => {},
        },
        None => {},
    }
    let t = trim_chars(before);
    let sig = if starts_with_str(t, "DELAY") {
        command_signature(
            "DELAY milliseconds",
            "Wait for specified milliseconds (1-60000)",
            "milliseconds",
            "Time to wait in milliseconds",
        )
    } else if starts_with_str(t, "STRING") {
        command_signature("STRING text", "Type a string of characters", "text", "Text to type")
    } else if starts_with_str(t, "STRINGLN") {
        command_signature("STRINGLN text", "Type a string followed by ENTER", "text", "Text to type")
    } else {
        return None;
    };
    let signatures = vec![sig];
    Some(SignatureHelp { signatures, active_signature: Some(0), active_parameter: Some(0) })
}

} // verus!
