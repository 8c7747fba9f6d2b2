//! Code actions: quick fixes for diagnostics, refactorings and source
//! clean-ups an editor offers on a script.
use vstd::prelude::*;

use crate::semantic_tokens::leading_ws;
use crate::text::{self, chars_of, contains_str, is_ws_char, split_lines, string_of, trim_chars};
use crate::text_edit::{at, edits_view, Position, Range, TextEdit};
use crate::numbers::{decimal, decimal_chars};
use crate::document_symbol::first_word;
use crate::semantic_tokens::MAX_DOCUMENT_CHARS;
use crate::text::view_all;

verus! {

/// A diagnostic's code: a number or a text such as `W001`.
#[derive(Debug)]
pub enum NumberOrString {
    Number(i32),
    String(String),
}

/// How serious a diagnostic is.
#[derive(Debug, Clone, Copy, PartialEq, Eq, Structural)]
pub enum DiagnosticSeverity {
    Error,
    Warning,
    Information,
    Hint,
}

/// A problem reported on a range of a script.
#[derive(Debug)]
pub struct Diagnostic {
    pub range: Range,
    pub severity: Option<DiagnosticSeverity>,
    pub code: Option<NumberOrString>,
    pub source: Option<String>,
    pub message: String,
}

/// The view of an optional text.
pub open spec fn opt_view(s: Option<String>) -> Option<Seq<char>> {
    match s {
        Some(t) => Some(t@),
        None => None,
    }
}

/// What a code action does.
#[derive(Debug, Clone, Copy, PartialEq, Eq, Structural)]
pub enum CodeActionKind {
    QuickFix,
    RefactorExtract,
    RefactorInline,
    SourceOrganizeImports,
}

/// The edits to one document.
#[derive(Debug)]
pub struct WorkspaceEdit {
    pub uri: String,
    pub edits: Vec<TextEdit>,
}

/// An action an editor offers: its title, its kind, the diagnostics it
/// fixes and the edit it makes.
#[derive(Debug)]
pub struct CodeAction {
    pub title: String,
    pub kind: Option<CodeActionKind>,
    pub diagnostics: Option<Vec<Diagnostic>>,
    pub edit: Option<WorkspaceEdit>,
}

/// The code of a diagnostic when it is a text.
pub open spec fn code_text(d: Diagnostic) -> Option<Seq<char>> {
    match d.code {
        Some(NumberOrString::String(s)) => Some(s@),
        _ => None,
    }
}

/// Two diagnostics that say the same.
pub open spec fn same_diagnostic(a: Diagnostic, b: Diagnostic) -> bool {
    &&& a.range == b.range
    &&& a.severity == b.severity
    &&& opt_view(a.source) == opt_view(b.source)
    &&& a.message@ == b.message@
    &&& match (a.code, b.code) {
        (None, None) => true,
        (Some(NumberOrString::Number(x)), Some(NumberOrString::Number(y))) => x == y,
        (Some(NumberOrString::String(x)), Some(NumberOrString::String(y))) => x@ == y@,
        _ => false,
    }
}

impl Diagnostic {
    /// A copy of the diagnostic.
    pub fn duplicate(&self) -> (r: Diagnostic)
        ensures
            same_diagnostic(r, *self),
    {
        let code = match &self.code {
            None => None,
            Some(NumberOrString::Number(x)) => Some(NumberOrString::Number(*x)),
            Some(NumberOrString::String(s)) => Some(NumberOrString::String(s.clone())),
        };
        let source = match &self.source {
            None => None,
            Some(t) => Some(t.clone()),
        };
        Diagnostic {
            range: self.range,
            severity: self.severity,
            code,
            source,
            message: self.message.clone(),
        }
    }
}

/// The whitespace that line `line` of `content` starts with (nothing when
/// there is no such line).
pub open spec fn line_indent(content: Seq<char>, line: int) -> Seq<char> {
    let ls = text::lines(content);
    if 0 <= line < ls.len() {
        ls[line].take(leading_ws(ls[line]) as int)
    } else {
        seq![]
    }
}

/// A quick fix: its title and its edits.
pub type Fix = (Seq<char>, Seq<(Range, Seq<char>)>);

/// For a warning (a text code starting with `W`): a comment on the line
/// before it that tells the linter to skip the next line.
pub open spec fn suppress_fix(content: Seq<char>, d: Diagnostic) -> Seq<Fix> {
    match code_text(d) {
        Some(c) => if c.len() > 0 && c[0] == 'W' {
            let p = Position { line: d.range.start.line, character: 0 };
            seq![
                (
                    "Suppress warning "@ + c,
                    seq![
                        (
                            at(p),
                            line_indent(content, d.range.start.line as int)
                                + "REM ducky-ignore-next-line "@ + c + "\n"@,
                        ),
                    ],
                ),
            ]
        } else {
            seq![]
        },
        None => seq![],
    }
}

/// The closing line an `E100` diagnostic says is missing, read from its
/// message.
pub open spec fn missing_closer(d: Diagnostic) -> Option<Seq<char>> {
    if code_text(d) == Some("E100"@) {
        if text::contains(d.message@, "END_IF"@) {
            Some("END_IF"@)
        } else if text::contains(d.message@, "END_WHILE"@) {
            Some("END_WHILE"@)
        } else if text::contains(d.message@, "END_FUNCTION"@) {
            Some("END_FUNCTION"@)
        } else {
            None
        }
    } else {
        None
    }
}

/// For a missing closing line: that line, added after the diagnostic's range.
pub open spec fn closer_fix(d: Diagnostic) -> Seq<Fix> {
    match missing_closer(d) {
        Some(w) => {
            let p = Position { line: (d.range.end.line + 1) as u32, character: 0 };
            seq![("Add missing "@ + w, seq![(at(p), w + "\n"@)])]
        },
        None => seq![],
    }
}

/// The quick fixes for a diagnostic.
pub open spec fn diagnostic_fixes(content: Seq<char>, d: Diagnostic) -> Seq<Fix> {
    suppress_fix(content, d) + closer_fix(d)
}

/// Whether `a` is the quick fix `f` for `d`, on the document `uri`.
pub open spec fn is_fix_action(a: CodeAction, f: Fix, d: Diagnostic, uri: Seq<char>) -> bool {
    &&& a.title@ == f.0
    &&& a.kind == Some(CodeActionKind::QuickFix)
    &&& match a.diagnostics {
        Some(v) => v@.len() == 1 && same_diagnostic(v@[0], d),
        None => false,
    }
    &&& match a.edit {
        Some(w) => w.uri@ == uri && edits_view(w.edits@) == f.1,
        None => false,
    }
}

fn push_all(v: &mut Vec<char>, s: &[char])
    ensures
        final(v)@ == old(v)@ + s@,
{
    let mut k: usize = 0;
    while k < s.len()
        invariant
            k <= s@.len(),
            v@ == old(v)@ + s@.take(k as int),
        decreases s@.len() - k,
    {
        v.push(s[k]);
        k = k + 1;
        assert(v@ =~= old(v)@ + s@.take(k as int));
    }
    assert(s@.take(k as int) =~= s@);
}

fn push_str(v: &mut Vec<char>, s: &str)
    ensures
        final(v)@ == old(v)@ + s@,
{
    let c = chars_of(s);
    push_all(v, c.as_slice());
}

/// A quick fix action for `d` with one edit.
fn fix_action(title: Vec<char>, range: Range, text: Vec<char>, d: &Diagnostic, uri: &str) -> (r: CodeAction)
    ensures
        is_fix_action(r, (title@, seq![(range, text@)]), *d, uri@),
{
    let e = TextEdit { range, new_text: string_of(text.as_slice()) };
    let edits = vec![e];
    assert(edits_view(edits@) =~= seq![(range, text@)]);
    let ds = vec![d.duplicate()];
    CodeAction {
        title: string_of(title.as_slice()),
        kind: Some(CodeActionKind::QuickFix),
        diagnostics: Some(ds),
        edit: Some(WorkspaceEdit { uri: string_of(chars_of(uri).as_slice()), edits }),
    }
}

/// The leading whitespace of `s`.
fn indent_of(s: &[char]) -> (r: Vec<char>)
    ensures
        r@ == s@.take(leading_ws(s@) as int),
{
    let mut j: usize = 0;
    assert(s@.skip(0) =~= s@);
    while j < s.len() && is_ws_char(s[j])
        invariant
            j <= s@.len(),
            leading_ws(s@) == j + leading_ws(s@.skip(j as int)),
        decreases s@.len() - j,
    {
        assert(s@.skip(j as int).drop_first() =~= s@.skip(j + 1));
        j = j + 1;
    }
    let mut r: Vec<char> = Vec::new();
    push_all(&mut r, &s[0..j]);
    assert(r@ =~= s@.take(j as int));
    r
}

/// The quick fixes for a diagnostic: a warning can be silenced by a comment
/// on the line before it, and a missing `END_IF`, `END_WHILE` or
/// `END_FUNCTION` reported as `E100` can be added after the range.
pub fn get_diagnostic_fixes(content: &str, diagnostic: &Diagnostic, uri: &str) -> (r: Vec<CodeAction>)
    requires
        missing_closer(*diagnostic) is Some ==> diagnostic.range.end.line < u32::MAX,
    ensures
        r@.len() == diagnostic_fixes(content@, *diagnostic).len(),
        forall|i: int|
            0 <= i < r@.len() ==> is_fix_action(
                #[trigger] r@[i],
                diagnostic_fixes(content@, *diagnostic)[i],
                *diagnostic,
                uri@,
            ),
{
    let mut actions: Vec<CodeAction> = Vec::new();
    let code: Option<Vec<char>> = match &diagnostic.code {
        Some(NumberOrString::String(s)) => Some(chars_of(s.as_str())),
        _ => None,
    };
    match &code {
        Some(c) => {
            if c.len() > 0 && c[0] == 'W' {
                let cc = chars_of(content);
                let lines = split_lines(cc.as_slice());
                let line_idx = diagnostic.range.start.line as usize;
                let indent: Vec<char> = if line_idx < lines.len() {
                    indent_of(lines[line_idx].as_slice())
                } else {
                    Vec::new()
                };
                let mut title: Vec<char> = Vec::new();
                push_str(&mut title, "Suppress warning ");
                push_all(&mut title, c.as_slice());
                let mut text: Vec<char> = Vec::new();
                push_all(&mut text, indent.as_slice());
                push_str(&mut text, "REM ducky-ignore-next-line ");
                push_all(&mut text, c.as_slice());
                push_str(&mut text, "\n");
                let p = Position { line: diagnostic.range.start.line, character: 0 };
                let a = fix_action(title, Range { start: p, end: p }, text, diagnostic, uri);
                actions.push(a);
            }
        },
        None => {},
    }
    assert(actions@.len() == suppress_fix(content@, *diagnostic).len());
    let closer: Option<&str> = match &code {
        Some(c) => {
            if text::eq_str(c.as_slice(), "E100") {
                let m = chars_of(diagnostic.message.as_str());
                if contains_str(m.as_slice(), "END_IF") {
                    Some("END_IF")
                } else if contains_str(m.as_slice(), "END_WHILE") {
                    Some("END_WHILE")
                } else if contains_str(m.as_slice(), "END_FUNCTION") {
                    Some("END_FUNCTION")
                } else {
                    None
                }
            } else {
                None
            }
        },
        None => None,
    };
    match closer {
        Some(w) => {
            let mut title: Vec<char> = Vec::new();
            push_str(&mut title, "Add missing ");
            push_str(&mut title, w);
            let mut text: Vec<char> = Vec::new();
            push_str(&mut text, w);
            push_str(&mut text, "\n");
            let p = Position { line: diagnostic.range.end.line + 1, character: 0 };
            let a = fix_action(title, Range { start: p, end: p }, text, diagnostic, uri);
            actions.push(a);
        },
        None => {},
    }
    actions
}

/// An action as plain values: title, kind and the edits it makes to a
/// document.
pub type ActionView = (Seq<char>, Option<CodeActionKind>, Option<(Seq<char>, Seq<(Range, Seq<char>)>)>);

/// The view of an action that fixes no diagnostic.
pub open spec fn plain_action(a: CodeAction) -> Option<ActionView> {
    if a.diagnostics is None {
        Some(
            (
                a.title@,
                a.kind,
                match a.edit {
                    Some(w) => Some((w.uri@, edits_view(w.edits@))),
                    None => None,
                },
            ),
        )
    } else {
        None
    }
}

/// Two ranges share a line.
pub open spec fn ranges_overlap(a: Range, b: Range) -> bool {
    !(a.end.line < b.start.line || b.end.line < a.start.line)
}

/// The fixes for the diagnostics from `k` on whose range shares a line with
/// `range`, each with its diagnostic.
pub open spec fn fixes_from(content: Seq<char>, ds: Seq<Diagnostic>, k: int, range: Range) -> Seq<(Fix, Diagnostic)>
    decreases ds.len() - k,
{
    if k < 0 || k >= ds.len() {
        seq![]
    } else {
        let here = if ranges_overlap(ds[k].range, range) {
            diagnostic_fixes(content, ds[k]).map_values(|f: Fix| (f, ds[k]))
        } else {
            seq![]
        };
        here + fixes_from(content, ds, k + 1, range)
    }
}

/// The text of the function that extracting `selected` makes.
pub open spec fn extracted_function(selected: Seq<Seq<char>>) -> Seq<char> {
    "FUNCTION extracted_function\n"@ + joined(selected) + "\nEND_FUNCTION\n\n"@
}

/// The lines joined with new lines between them.
pub open spec fn joined(ls: Seq<Seq<char>>) -> Seq<char>
    decreases ls.len(),
{
    if ls.len() == 0 {
        seq![]
    } else if ls.len() == 1 {
        ls[0]
    } else {
        joined(ls.drop_last()) + "\n"@ + ls.last()
    }
}

/// The lines of `ls` from `a` to `b` (those that exist).
pub open spec fn lines_between(ls: Seq<Seq<char>>, a: int, b: int) -> Seq<Seq<char>> {
    let lo = if a < ls.len() {
        a
    } else {
        ls.len() as int
    };
    let hi = if b + 1 < ls.len() {
        b + 1
    } else {
        ls.len() as int
    };
    ls.subrange(lo, if hi < lo { lo } else { hi })
}

/// The refactorings offered on a selection: extracting the selected lines
/// into a function (when more than one line is selected), and inlining a
/// variable (offered, with no edit, on a `VAR` line).
pub open spec fn refactoring_actions(content: Seq<char>, range: Range, uri: Seq<char>) -> Seq<ActionView> {
    refactoring_actions_of(text::lines(content), range, uri)
}

/// The name a `VAR ` line declares: its first word after the keyword.
pub open spec fn declared_name(t: Seq<char>) -> Option<Seq<char>> {
    if text::starts_with(t, "VAR "@) {
        first_word(t.skip(4))
    } else {
        None
    }
}

/// Whether a line other than `k` mentions `r`.
pub open spec fn used_elsewhere(ls: Seq<Seq<char>>, k: int, r: Seq<char>) -> bool {
    exists|j: int| 0 <= j < ls.len() && j != k && text::contains(#[trigger] ls[j], r)
}

/// The declarations from line `k` on whose `$` followed by the declared name
/// no other line mentions.
pub open spec fn unused_from(ls: Seq<Seq<char>>, k: int) -> Seq<(int, Seq<char>)>
    decreases ls.len() - k,
{
    if k < 0 || k >= ls.len() {
        seq![]
    } else {
        let rest = unused_from(ls, k + 1);
        match declared_name(text::trim(ls[k])) {
            Some(n) => if !used_elsewhere(ls, k, "$"@ + n) {
                seq![(k, n)] + rest
            } else {
                rest
            },
            None => rest,
        }
    }
}

/// The source actions: removing the unused declarations (each whole line),
/// and sorting the `DEFINE`s (offered, with no edit, when there is one).
pub open spec fn source_actions(content: Seq<char>, uri: Seq<char>) -> Seq<ActionView> {
    source_actions_of(text::lines(content), content, uri)
}

fn plain(title: Vec<char>, kind: CodeActionKind, edit: Option<WorkspaceEdit>) -> (r: CodeAction)
    ensures
        plain_action(r) == Some(
            (
                title@,
                Some(kind),
                match edit {
                    Some(w) => Some((w.uri@, edits_view(w.edits@))),
                    None => None,
                },
            ),
        ),
{
    CodeAction { title: string_of(title.as_slice()), kind: Some(kind), diagnostics: None, edit }
}

/// The lines joined with new lines between them.
fn joined_exec(ls: &[Vec<char>]) -> (r: Vec<char>)
    ensures
        r@ == joined(view_all(ls@)),
{
    let mut out: Vec<char> = Vec::new();
    let mut k: usize = 0;
    while k < ls.len()
        invariant
            k <= ls@.len(),
            out@ == joined(view_all(ls@).take(k as int)),
        decreases ls@.len() - k,
    {
        let ghost before = out@;
        if k > 0 {
            out.push('\n');
        }
        push_all(&mut out, ls[k].as_slice());
        proof {
            let v = view_all(ls@);
            assert(v.take(k + 1).drop_last() =~= v.take(k as int));
            assert(v.take(k + 1).last() == ls@[k as int]@);
            if k > 0 {
                assert(out@ =~= before + "\n"@ + ls@[k as int]@) by {
                    reveal_strlit("\n");
                }
            } else {
                assert(v.take(1) =~= seq![ls@[0]@]);
            }
        }
        k = k + 1;
    }
    assert(view_all(ls@).take(k as int) =~= view_all(ls@));
    out
}

/// The refactorings offered on a selection.
fn get_refactoring_actions(lines: &Vec<Vec<char>>, range: Range, uri: &str) -> (r: Vec<CodeAction>)
    requires
        !(range.start.line == 0 && range.end.line == u32::MAX),
    ensures
        r@.map_values(|a: CodeAction| plain_action(a)) == refactoring_actions_of(
            view_all(lines@),
            range,
            uri@,
        ).map_values(|v: ActionView| Some(v)),
{
    let ghost ls = view_all(lines@);
    let mut actions: Vec<CodeAction> = Vec::new();
    let ghost mut want: Seq<ActionView> = seq![];
    if range.start.line < range.end.line {
        let a = range.start.line as usize;
        let b = range.end.line as usize;
        let lo = if a < lines.len() { a } else { lines.len() };
        let hi0 = if b < lines.len() { b + 1 } else { lines.len() };
        let hi = if hi0 < lo { lo } else { hi0 };
        if lo < hi {
            let sel = &lines.as_slice()[lo..hi];
            proof {
                assert(view_all(sel@) =~= lines_between(ls, a as int, b as int));
            }
            let body = joined_exec(sel);
            let mut text = chars_of("FUNCTION extracted_function\n");
            push_all(&mut text, body.as_slice());
            push_str(&mut text, "\nEND_FUNCTION\n\n");
            let e1 = TextEdit {
                range: Range { start: Position { line: 0, character: 0 }, end: Position { line: 0, character: 0 } },
                new_text: string_of(text.as_slice()),
            };
            let e2 = TextEdit { range, new_text: string_of(chars_of("extracted_function").as_slice()) };
            let edits = vec![e1, e2];
            assert(edits_view(edits@) =~= seq![e1@, e2@]);
            let w = WorkspaceEdit { uri: string_of(chars_of(uri).as_slice()), edits };
            let act = plain(chars_of("Extract to FUNCTION"), CodeActionKind::RefactorExtract, Some(w));
            actions.push(act);
        }
    }
    let k = range.start.line as usize;
    if k < lines.len() {
        assert(ls[k as int] == lines@[k as int]@);
        if text::starts_with_str(trim_chars(lines[k].as_slice()), "VAR ") {
            let act = plain(chars_of("Inline variable"), CodeActionKind::RefactorInline, None);
            let ghost before = actions@.map_values(|a: CodeAction| plain_action(a));
            actions.push(act);
            assert(actions@.map_values(|a: CodeAction| plain_action(a)) =~= before.push(plain_action(act)));
        }
    }
    assert(actions@.map_values(|a: CodeAction| plain_action(a)) =~= refactoring_actions_of(
        ls,
        range,
        uri@,
    ).map_values(|v: ActionView| Some(v)));
    actions
}

/// [`refactoring_actions`] over lines already split.
pub open spec fn refactoring_actions_of(ls: Seq<Seq<char>>, range: Range, uri: Seq<char>) -> Seq<ActionView> {
    let extract: Seq<ActionView> = if range.start.line < range.end.line {
        let sel = lines_between(ls, range.start.line as int, range.end.line as int);
        if sel.len() > 0 {
            seq![
                (
                    "Extract to FUNCTION"@,
                    Some(CodeActionKind::RefactorExtract),
                    Some(
                        (
                            uri,
                            seq![
                                (at(Position { line: 0, character: 0 }), extracted_function(sel)),
                                (range, "extracted_function"@),
                            ],
                        ),
                    ),
                ),
            ]
        } else {
            seq![]
        }
    } else {
        seq![]
    };
    let inline: Seq<ActionView> = if range.start.line < ls.len() && text::starts_with(
        text::trim(ls[range.start.line as int]),
        "VAR "@,
    ) {
        seq![("Inline variable"@, Some(CodeActionKind::RefactorInline), None)]
    } else {
        seq![]
    };
    extract + inline
}

/// The name a `VAR ` line declares.
fn declared_name_exec(t: &[char]) -> (r: Option<Vec<char>>)
    ensures
        match r {
            Some(n) => declared_name(t@) == Some(n@),
            None => declared_name(t@) is None,
        },
{
    if text::starts_with_str(t, "VAR ") {
        proof {
            reveal_strlit("VAR ");
        }
        let rest = &t[4..t.len()];
        assert(rest@ =~= t@.skip(4));
        crate::document_symbol::first_word_exec(rest)
    } else {
        None
    }
}

/// Whether a line other than `k` mentions `r`.
fn used_elsewhere_exec(lines: &Vec<Vec<char>>, k: usize, r: &[char]) -> (b: bool)
    ensures
        b == used_elsewhere(view_all(lines@), k as int, r@),
{
    let mut j: usize = 0;
    while j < lines.len()
        invariant
            j <= lines@.len(),
            forall|m: int| 0 <= m < j && m != k ==> !text::contains(#[trigger] view_all(lines@)[m], r@),
        decreases lines@.len() - j,
    {
        assert(view_all(lines@)[j as int] == lines@[j as int]@);
        if j != k && text::contains_chars(lines[j].as_slice(), r) {
            return true;
        }
        j = j + 1;
    }
    false
}

/// The declarations that nothing else mentions, with their lines.
fn find_unused_variables(lines: &Vec<Vec<char>>) -> (r: Vec<(usize, Vec<char>)>)
    ensures
        r@.map_values(|u: (usize, Vec<char>)| (u.0 as int, u.1@)) == unused_from(view_all(lines@), 0),
        forall|i: int| 0 <= i < r@.len() ==> r@[i].0 < lines@.len(),
{
    let ghost ls = view_all(lines@);
    let mut out: Vec<(usize, Vec<char>)> = Vec::new();
    let mut k: usize = 0;
    while k < lines.len()
        invariant
            k <= lines@.len(),
            ls == view_all(lines@),
            out@.map_values(|u: (usize, Vec<char>)| (u.0 as int, u.1@)) + unused_from(ls, k as int)
                == unused_from(ls, 0),
            forall|i: int| 0 <= i < out@.len() ==> out@[i].0 < lines@.len(),
        decreases lines@.len() - k,
    {
        assert(ls[k as int] == lines@[k as int]@);
        let ghost before = out@.map_values(|u: (usize, Vec<char>)| (u.0 as int, u.1@));
        match declared_name_exec(trim_chars(lines[k].as_slice())) {
            Some(n) => {
                let mut r = chars_of("$");
                push_all(&mut r, n.as_slice());
                if !used_elsewhere_exec(lines, k, r.as_slice()) {
                    let ghost nv = n@;
                    out.push((k, n));
                    assert(out@.map_values(|u: (usize, Vec<char>)| (u.0 as int, u.1@)) =~= before.push(
                        (k as int, nv),
                    ));
                    assert(before.push((k as int, nv)) + unused_from(ls, k + 1) =~= before + unused_from(
                        ls,
                        k as int,
                    ));
                }
            },
            None => {},
        }
        k = k + 1;
    }
    out
}

/// [`source_actions`] over lines already split.
pub open spec fn source_actions_of(ls: Seq<Seq<char>>, content: Seq<char>, uri: Seq<char>) -> Seq<ActionView> {
    let unused = unused_from(ls, 0);
    let remove: Seq<ActionView> = if unused.len() > 0 {
        seq![
            (
                "Remove "@ + decimal(unused.len()) + " unused variable(s)"@,
                Some(CodeActionKind::SourceOrganizeImports),
                Some(
                    (
                        uri,
                        unused.map_values(
                            |u: (int, Seq<char>)|
                                (
                                    Range {
                                        start: Position { line: u.0 as u32, character: 0 },
                                        end: Position { line: (u.0 + 1) as u32, character: 0 },
                                    },
                                    Seq::<char>::empty(),
                                ),
                        ),
                    ),
                ),
            ),
        ]
    } else {
        seq![]
    };
    let sort: Seq<ActionView> = if text::contains(content, "DEFINE "@) {
        seq![("Sort DEFINE statements"@, Some(CodeActionKind::SourceOrganizeImports), None)]
    } else {
        seq![]
    };
    remove + sort
}

/// The source actions of a script.
fn get_source_actions(content: &str, lines: &Vec<Vec<char>>, uri: &str) -> (r: Vec<CodeAction>)
    requires
        view_all(lines@) == text::lines(content@),
        lines@.len() <= MAX_DOCUMENT_CHARS,
    ensures
        r@.map_values(|a: CodeAction| plain_action(a)) == source_actions_of(
            view_all(lines@),
            content@,
            uri@,
        ).map_values(|v: ActionView| Some(v)),
{
    let ghost ls = view_all(lines@);
    let mut actions: Vec<CodeAction> = Vec::new();
    let unused = find_unused_variables(lines);
    let ghost uv = unused_from(ls, 0);
    if unused.len() > 0 {
        let mut edits: Vec<TextEdit> = Vec::new();
        let ghost want = uv.map_values(
            |u: (int, Seq<char>)|
                (
                    Range {
                        start: Position { line: u.0 as u32, character: 0 },
                        end: Position { line: (u.0 + 1) as u32, character: 0 },
                    },
                    Seq::<char>::empty(),
                ),
        );
        let mut j: usize = 0;
        while j < unused.len()
            invariant
                j <= unused@.len(),
                unused@.map_values(|u: (usize, Vec<char>)| (u.0 as int, u.1@)) == uv,
                forall|i: int| 0 <= i < unused@.len() ==> unused@[i].0 < lines@.len(),
                lines@.len() <= MAX_DOCUMENT_CHARS,
                want == uv.map_values(
                    |u: (int, Seq<char>)|
                        (
                            Range {
                                start: Position { line: u.0 as u32, character: 0 },
                                end: Position { line: (u.0 + 1) as u32, character: 0 },
                            },
                            Seq::<char>::empty(),
                        ),
                ),
                edits_view(edits@) == want.take(j as int),
            decreases unused@.len() - j,
        {
            let line = unused[j].0;
            assert(uv[j as int].0 == line as int);
            let e = TextEdit {
                range: Range {
                    start: Position { line: line as u32, character: 0 },
                    end: Position { line: (line + 1) as u32, character: 0 },
                },
                new_text: String::new(),
            };
            let ghost before = edits_view(edits@);
            assert(e.new_text@ =~= Seq::<char>::empty());
            assert(want[j as int] == e@);
            edits.push(e);
            assert(edits_view(edits@) =~= before.push(e@));
            j = j + 1;
            assert(edits_view(edits@) =~= want.take(j as int));
        }
        assert(want.take(j as int) =~= want);
        let mut title = chars_of("Remove ");
        let count = decimal_chars(unused.len() as u128);
        push_all(&mut title, count.as_slice());
        push_str(&mut title, " unused variable(s)");
        let w = WorkspaceEdit { uri: string_of(chars_of(uri).as_slice()), edits };
        let act = plain(title, CodeActionKind::SourceOrganizeImports, Some(w));
        actions.push(act);
    }
    let c = chars_of(content);
    if contains_str(c.as_slice(), "DEFINE ") {
        let act = plain(chars_of("Sort DEFINE statements"), CodeActionKind::SourceOrganizeImports, None);
        let ghost before = actions@.map_values(|a: CodeAction| plain_action(a));
        actions.push(act);
        assert(actions@.map_values(|a: CodeAction| plain_action(a)) =~= before.push(plain_action(act)));
    }
    assert(actions@.map_values(|a: CodeAction| plain_action(a)) =~= source_actions_of(
        ls,
        content@,
        uri@,
    ).map_values(|v: ActionView| Some(v)));
    actions
}

fn ranges_overlap_exec(a: Range, b: Range) -> (r: bool)
    ensures
        r == ranges_overlap(a, b),
{
    !(a.end.line < b.start.line || b.end.line < a.start.line)
}

/// The actions offered on `range`: the quick fixes of each diagnostic that
/// shares a line with it, then the refactorings of the selection, then the
/// source actions of the script.
pub fn get_code_actions(content: &str, range: Range, diagnostics: Vec<Diagnostic>, uri: &str) -> (r: Vec<CodeAction>)
    requires
        content@.len() <= MAX_DOCUMENT_CHARS,
        !(range.start.line == 0 && range.end.line == u32::MAX),
        forall|k: int|
            0 <= k < diagnostics@.len() && ranges_overlap(diagnostics@[k].range, range) && (
            #[trigger] missing_closer(diagnostics@[k])) is Some ==> diagnostics@[k].range.end.line
                < u32::MAX,
    ensures
        ({
            let fixes = fixes_from(content@, diagnostics@, 0, range);
            let rest = refactoring_actions(content@, range, uri@) + source_actions(content@, uri@);
            &&& r@.len() == fixes.len() + rest.len()
            &&& forall|i: int|
                0 <= i < fixes.len() ==> is_fix_action(#[trigger] r@[i], fixes[i].0, fixes[i].1, uri@)
            &&& forall|i: int|
                fixes.len() <= i < r@.len() ==> plain_action(#[trigger] r@[i]) == Some(
                    rest[i - fixes.len()],
                )
        }),
{
    let mut actions: Vec<CodeAction> = Vec::new();
    let ghost all = fixes_from(content@, diagnostics@, 0, range);
    let ghost mut done: Seq<(Fix, Diagnostic)> = seq![];
    let mut k: usize = 0;
    while k < diagnostics.len()
        invariant
            k <= diagnostics@.len(),
            forall|m: int|
                0 <= m < diagnostics@.len() && ranges_overlap(diagnostics@[m].range, range) && (
                #[trigger] missing_closer(diagnostics@[m])) is Some ==> diagnostics@[m].range.end.line
                    < u32::MAX,
            done + fixes_from(content@, diagnostics@, k as int, range) == all,
            actions@.len() == done.len(),
            forall|i: int|
                0 <= i < done.len() ==> is_fix_action(#[trigger] actions@[i], done[i].0, done[i].1, uri@),
        decreases diagnostics@.len() - k,
    {
        let d = &diagnostics[k];
        if ranges_overlap_exec(d.range, range) {
            let fixes = get_diagnostic_fixes(content, d, uri);
            let ghost here = diagnostic_fixes(content@, *d).map_values(|f: Fix| (f, *d));
            let ghost base = actions@.len();
            let mut fx = fixes;
            let ghost fv = fx@;
            actions.append(&mut fx);
            proof {
                assert(done + here + fixes_from(content@, diagnostics@, k + 1, range) =~= done
                    + fixes_from(content@, diagnostics@, k as int, range));
                assert forall|i: int| 0 <= i < (done + here).len() implies is_fix_action(
                    #[trigger] actions@[i],
                    (done + here)[i].0,
                    (done + here)[i].1,
                    uri@,
                ) by {
                    if i >= done.len() {
                        assert(actions@[i] == fv[i - base]);
                        assert(is_fix_action(
                            fv[i - base],
                            diagnostic_fixes(content@, *d)[i - base],
                            *d,
                            uri@,
                        ));
                    }
                }
                done = done + here;
            }
        } else {
            assert(done + fixes_from(content@, diagnostics@, k + 1, range) =~= done + fixes_from(
                content@,
                diagnostics@,
                k as int,
                range,
            ));
        }
        k = k + 1;
    }
    assert(done =~= all);
    let lines = crate::references::bounded_lines(content);
    let refactors = get_refactoring_actions(&lines, range, uri);
    let sources = get_source_actions(content, &lines, uri);
    let ghost rest = refactoring_actions(content@, range, uri@) + source_actions(content@, uri@);
    let ghost nfix = actions@.len();
    let ghost rv = refactors@;
    let ghost sv = sources@;
    let mut more = refactors;
    let mut src = sources;
    more.append(&mut src);
    let ghost mv = more@;
    assert(mv =~= rv + sv);
    assert(mv.map_values(|a: CodeAction| plain_action(a)) =~= rv.map_values(|a: CodeAction| plain_action(a))
        + sv.map_values(|a: CodeAction| plain_action(a)));
    assert(rest.map_values(|v: ActionView| Some(v)) =~= refactoring_actions(content@, range, uri@).map_values(
        |v: ActionView| Some(v),
    ) + source_actions(content@, uri@).map_values(|v: ActionView| Some(v)));
    assert(mv.map_values(|a: CodeAction| plain_action(a)) =~= rest.map_values(|v: ActionView| Some(v)));
    actions.append(&mut more);
    assert forall|i: int| nfix <= i < actions@.len() implies plain_action(#[trigger] actions@[i]) == Some(
        rest[i - nfix],
    ) by {
        assert(actions@[i] == mv[i - nfix]);
        assert(mv.map_values(|a: CodeAction| plain_action(a))[i - nfix] == plain_action(mv[i - nfix]));
    }
    actions
}

} // verus!
