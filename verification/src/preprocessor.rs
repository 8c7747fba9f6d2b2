//! The preprocessor: DEFINE constants, IF_DEFINED_TRUE / IF_NOT_DEFINED_TRUE
//! blocks, and the replacement of defined names in the script's lines.
use vstd::prelude::*;

use crate::errors::{CompilerError, CompilerResult, CompilerWarning};
use crate::lexer::{
    self, is_define_chars, is_elsedef_chars, is_end_string_chars,
    is_endifdef_chars, is_ifdef_chars, is_ifnotdef_chars, is_preprocessor_disabled_chars,
    is_rem_chars, is_string_block_chars, is_stringln_block_chars,
};
use crate::text::{
    self, chars_of, eq_chars, find_from, split_words, starts_with_str,
    string_of, to_vec, trim_chars,
};

verus! {

/// `s` with every occurrence of `p` (taken left to right, not overlapping)
/// replaced by `r` (`str::replace`).
pub open spec fn replace_all(s: Seq<char>, p: Seq<char>, r: Seq<char>) -> Seq<char>
    decreases s.len(),
{
    if p.len() == 0 || s.len() == 0 {
        s
    } else if text::starts_with(s, p) {
        r + replace_all(s.skip(p.len() as int), p, r)
    } else {
        seq![s[0]] + replace_all(s.skip(1), p, r)
    }
}

/// The words joined with single spaces.
pub open spec fn join_words(ws: Seq<Seq<char>>) -> Seq<char>
    decreases ws.len(),
{
    if ws.len() == 0 {
        Seq::empty()
    } else if ws.len() == 1 {
        ws[0]
    } else {
        join_words(ws.drop_last()) + " "@ + ws.last()
    }
}

/// A replacement that the preprocessor reports: the line (counted from 1),
/// the name, and what replaced it.
pub type Replacement = (nat, Seq<char>, Seq<char>);

pub open spec fn warning_matches(w: CompilerWarning, t: Replacement) -> bool {
    &&& w matches CompilerWarning::DefineReplacement { line, label, old: o, new: n }
    &&& line == t.0
    &&& label@ == t.1
    &&& o@ == t.1
    &&& n@ == t.2
}

pub open spec fn warnings_match(ws: Seq<CompilerWarning>, ts: Seq<Replacement>) -> bool {
    &&& ws.len() == ts.len()
    &&& forall|i: int| 0 <= i < ws.len() ==> warning_matches(#[trigger] ws[i], ts[i])
}

/// The label and replacement of a DEFINE line with at least three words: the
/// second word, and what follows `DEFINE <label> ` up to its next occurrence.
pub open spec fn define_of(trimmed: Seq<char>) -> Option<(Seq<char>, Seq<char>)> {
    let ws = text::words(trimmed);
    if lexer::is_define_spec(trimmed) && ws.len() >= 3 {
        let label = ws[1];
        let p = "DEFINE "@ + label + " "@;
        Some((label, split_piece_1(trimmed, p)))
    } else {
        None
    }
}

/// The second piece when `s` is split at `p`, or nothing when there is none
/// (`s.split(p).nth(1).unwrap_or("")`).
pub open spec fn split_piece_1(s: Seq<char>, p: Seq<char>) -> Seq<char> {
    if exists|i: int| text::occurs_at(s, p, i) {
        let k = choose|i: int|
            text::occurs_at(s, p, i) && forall|j: int| 0 <= j < i ==> !text::occurs_at(s, p, j);
        let rest = s.skip(k + p.len());
        if exists|i: int| text::occurs_at(rest, p, i) {
            let k2 = choose|i: int|
                text::occurs_at(rest, p, i) && forall|j: int|
                    0 <= j < i ==> !text::occurs_at(rest, p, j);
            rest.take(k2)
        } else {
            rest
        }
    } else {
        Seq::empty()
    }
}

/// The result of collecting the DEFINEs of `lines[i..]` after those in `defs`:
/// the definitions, or the line (from 1) and name of the first one defined twice.
pub open spec fn gather_from(lines: Seq<Seq<char>>, i: int, defs: Seq<(Seq<char>, Seq<char>)>) -> Result<
    Seq<(Seq<char>, Seq<char>)>,
    (nat, Seq<char>),
>
    decreases lines.len() - i,
{
    if i < 0 || i >= lines.len() {
        Ok(defs)
    } else {
        match define_of(text::trim(lines[i])) {
            Some(d) => if defs.map_values(|e: (Seq<char>, Seq<char>)| e.0).contains(d.0) {
                Err(((i + 1) as nat, d.0))
            } else {
                gather_from(lines, i + 1, defs.push(d))
            },
            None => gather_from(lines, i + 1, defs),
        }
    }
}

/// Whether `label`'s replacement, trimmed, is `expected`; for a label that
/// is not defined, whether `expected` is `FALSE`.
pub open spec fn search_label_spec(defs: Seq<(Seq<char>, Seq<char>)>, label: Seq<char>, expected: Seq<
    char,
>) -> bool
    decreases defs.len(),
{
    if defs.len() == 0 {
        expected == "FALSE"@
    } else if defs[0].0 == label {
        text::trim(defs[0].1) == expected
    } else {
        search_label_spec(defs.drop_first(), label, expected)
    }
}

/// The open conditional blocks: for each, whether it is IF_DEFINED_TRUE (or
/// IF_NOT_DEFINED_TRUE), and its current condition value.
pub type IfdefStack = Seq<(bool, bool)>;

/// The open blocks after a line.
pub open spec fn ifdef_step(defs: Seq<(Seq<char>, Seq<char>)>, stack: IfdefStack, trimmed: Seq<char>) -> IfdefStack {
    let ws = text::words(trimmed);
    let label = if ws.len() >= 2 {
        ws[1]
    } else {
        Seq::empty()
    };
    if lexer::is_ifdef_spec(trimmed) {
        stack.push((true, search_label_spec(defs, label, "TRUE"@)))
    } else if lexer::is_ifnotdef_spec(trimmed) {
        stack.push((false, !search_label_spec(defs, label, "FALSE"@)))
    } else if lexer::is_elsedef_spec(trimmed) {
        if stack.len() > 0 {
            stack.drop_last().push((stack.last().0, !stack.last().1))
        } else {
            stack
        }
    } else if lexer::is_endifdef_spec(trimmed) {
        if stack.len() > 0 {
            stack.drop_last()
        } else {
            stack
        }
    } else {
        stack
    }
}

/// Code is enabled when every open IF_DEFINED_TRUE block holds and no open
/// IF_NOT_DEFINED_TRUE block does.
pub open spec fn ifdef_enabled(stack: IfdefStack) -> bool {
    forall|i: int| 0 <= i < stack.len() ==> (#[trigger] stack[i]).0 == stack[i].1
}

/// The lines after conditional blocks are resolved, from line `i` on.
pub open spec fn ifdefs_from(defs: Seq<(Seq<char>, Seq<char>)>, lines: Seq<Seq<char>>, i: int, stack: IfdefStack) -> Seq<Seq<char>>
    decreases lines.len() - i,
{
    if i < 0 || i >= lines.len() {
        Seq::empty()
    } else {
        let st = ifdef_step(defs, stack, text::trim(lines[i]));
        let out = if ifdef_enabled(st) {
            lines[i]
        } else {
            "PREPROCESSOR_DISABLED "@ + lines[i]
        };
        seq![out] + ifdefs_from(defs, lines, i + 1, st)
    }
}

/// The `#`-names of `defs[i..]`, each replaced where it occurs in `line`.
/// Gives the line and the replacements to report (none when `quiet`).
pub open spec fn hash_replace(defs: Seq<(Seq<char>, Seq<char>)>, i: int, line: Seq<char>, line_no: nat, quiet: bool) -> (Seq<char>, Seq<Replacement>)
    decreases defs.len() - i,
{
    if i < 0 || i >= defs.len() {
        (line, Seq::empty())
    } else {
        let (l, r) = defs[i];
        if text::starts_with(l, "#"@) && text::contains(line, l) {
            let rest = hash_replace(defs, i + 1, replace_all(line, l, r), line_no, quiet);
            (
                rest.0,
                (if quiet {
                    Seq::empty()
                } else {
                    seq![(line_no, l, r)]
                }) + rest.1,
            )
        } else {
            hash_replace(defs, i + 1, line, line_no, quiet)
        }
    }
}

/// The first definition, from index `i` on, whose name is not a `#`-name and
/// is one of the words of `line`.
pub open spec fn word_label_from(defs: Seq<(Seq<char>, Seq<char>)>, i: int, ws: Seq<Seq<char>>) -> Option<int>
    decreases defs.len() - i,
{
    if i < 0 || i >= defs.len() {
        None
    } else if !text::starts_with(defs[i].0, "#"@) && ws.contains(defs[i].0) {
        Some(i)
    } else {
        word_label_from(defs, i + 1, ws)
    }
}

/// The words of `line` with each word equal to `l` replaced by `r`.
pub open spec fn replace_words(ws: Seq<Seq<char>>, l: Seq<char>, r: Seq<char>) -> Seq<Seq<char>> {
    ws.map_values(|w: Seq<char>| if w == l { r } else { w })
}

/// One replacement report for each word equal to `l`.
pub open spec fn word_reports(ws: Seq<Seq<char>>, l: Seq<char>, r: Seq<char>, line_no: nat) -> Seq<Replacement>
    decreases ws.len(),
{
    if ws.len() == 0 {
        Seq::empty()
    } else {
        word_reports(ws.drop_last(), l, r, line_no) + if ws.last() == l {
            seq![(line_no, l, r)]
        } else {
            Seq::empty()
        }
    }
}

/// What the preprocessor carries from line to line: inside a STRING block,
/// inside a STRINGLN block, and whether the next line's reports are muted.
#[derive(Clone, Copy)]
pub struct ProcessState {
    pub in_string: bool,
    pub in_stringln: bool,
    pub quiet: bool,
}

/// Whether a line is left as it is and does not touch the block state.
pub open spec fn passes_through(trimmed: Seq<char>) -> bool {
    ||| trimmed.len() == 0
    ||| lexer::is_rem_spec(trimmed)
    ||| lexer::is_define_spec(trimmed)
    ||| lexer::is_ifdef_spec(trimmed)
    ||| lexer::is_ifnotdef_spec(trimmed)
    ||| lexer::is_elsedef_spec(trimmed)
    ||| lexer::is_preprocessor_disabled_spec(trimmed)
}

/// The effect of the preprocessor on one line (`line_no` counted from 1):
/// the state after it, the line it gives, and the replacements it reports.
pub open spec fn process_line_spec(defs: Seq<(Seq<char>, Seq<char>)>, st: ProcessState, line: Seq<char>, line_no: nat) -> (ProcessState, Seq<char>, Seq<Replacement>) {
    let t = text::trim(line);
    if text::starts_with(t, "REM ducky-ignore-next-line"@) {
        (ProcessState { quiet: true, ..st }, line, Seq::empty())
    } else if passes_through(t) {
        (st, line, Seq::empty())
    } else {
        let (ins, insl) = if lexer::is_end_string_spec(t) {
            (false, false)
        } else if lexer::is_string_block_spec(t) {
            (true, st.in_stringln)
        } else if lexer::is_stringln_block_spec(t) {
            (st.in_string, true)
        } else {
            (st.in_string, st.in_stringln)
        };
        let next = ProcessState { in_string: ins, in_stringln: insl, quiet: false };
        if ins || insl {
            let h = hash_replace(defs, 0, line, line_no, st.quiet);
            (next, h.0, h.1)
        } else {
            let (mid, reports) = match word_label_from(defs, 0, text::words(line)) {
                Some(k) => {
                    let ws = text::words(line);
                    (
                        join_words(replace_words(ws, defs[k].0, defs[k].1)),
                        if st.quiet {
                            Seq::empty()
                        } else {
                            word_reports(ws, defs[k].0, defs[k].1, line_no)
                        },
                    )
                },
                None => (line, Seq::empty()),
            };
            let h = hash_replace(defs, 0, mid, line_no, st.quiet);
            (next, h.0, reports + h.1)
        }
    }
}

/// The lines the preprocessor gives for `lines[i..]`, and its reports.
pub open spec fn process_from(defs: Seq<(Seq<char>, Seq<char>)>, lines: Seq<Seq<char>>, i: int, st: ProcessState) -> (Seq<Seq<char>>, Seq<Replacement>)
    decreases lines.len() - i,
{
    if i < 0 || i >= lines.len() {
        (Seq::empty(), Seq::empty())
    } else {
        let (st2, out, reps) = process_line_spec(defs, st, lines[i], (i + 1) as nat);
        let rest = process_from(defs, lines, i + 1, st2);
        (seq![out] + rest.0, reps + rest.1)
    }
}

pub open spec fn initial_process_state() -> ProcessState {
    ProcessState { in_string: false, in_stringln: false, quiet: false }
}

/// Resolves DEFINEs and conditional blocks.
pub struct Preprocessor {
    defs: Vec<(Vec<char>, Vec<char>)>,
    pub warnings: Vec<CompilerWarning>,
}

impl Preprocessor {
    /// The definitions, in the order they were found.
    pub closed spec fn defs_view(&self) -> Seq<(Seq<char>, Seq<char>)> {
        defs_of(self.defs@)
    }

    /// The warnings reported so far.
    pub closed spec fn warnings_view(&self) -> Seq<CompilerWarning> {
        self.warnings@
    }

    /// Hands out the warnings reported so far, leaving none.
    pub fn take_warnings(&mut self) -> (w: Vec<CompilerWarning>)
        ensures
            w@ == old(self).warnings_view(),
            final(self).warnings_view() == Seq::<CompilerWarning>::empty(),
            final(self).defs_view() == old(self).defs_view(),
    {
        let mut w: Vec<CompilerWarning> = Vec::new();
        std::mem::swap(&mut w, &mut self.warnings);
        w
    }

    /// A preprocessor with no definitions and no warnings.
    pub fn new() -> (r: Preprocessor)
        ensures
            r.defs_view() == Seq::<(Seq<char>, Seq<char>)>::empty(),
            r.warnings_view() == Seq::<CompilerWarning>::empty(),
    {
        let r = Preprocessor { defs: Vec::new(), warnings: Vec::new() };
        assert(r.defs_view() =~= Seq::<(Seq<char>, Seq<char>)>::empty());
        r
    }
}

pub fn replace_all_chars(s: &[char], p: &[char], r: &[char]) -> (out: Vec<char>)
    ensures
        out@ == replace_all(s@, p@, r@),
{
    let mut out: Vec<char> = Vec::new();
    if p.len() == 0 {
        return to_vec(s);
    }
    let mut i: usize = 0;
    assert(s@.skip(0) =~= s@);
    while i < s.len()
        invariant
            i <= s@.len(),
            s@.len() == s.len(),
            p@.len() > 0,
            out@ + replace_all(s@.skip(i as int), p@, r@) == replace_all(s@, p@, r@),
        decreases s@.len() - i,
    {
        let ghost rest = s@.skip(i as int);
        let ghost before = out@;
        if text::prefix_eq(s, i, p) {
            assert(rest.take(p@.len() as int) =~= s@.subrange(i as int, i + p@.len()));
            assert(rest.skip(p@.len() as int) =~= s@.skip(i + p@.len()));
            let mut j: usize = 0;
            while j < r.len()
                invariant
                    j <= r@.len(),
                    out@ == before + r@.take(j as int),
                decreases r@.len() - j,
            {
                out.push(r[j]);
                assert(before + r@.take(j + 1) =~= (before + r@.take(j as int)).push(r@[j as int]));
                j = j + 1;
            }
            assert(r@.take(r@.len() as int) =~= r@);
            assert(before + (r@ + replace_all(s@.skip(i + p@.len()), p@, r@)) =~= out@ + replace_all(s@.skip(i + p@.len()), p@, r@));
            i = i + p.len();
        } else {
            proof {
                if text::starts_with(rest, p@) {
                    assert(rest.take(p@.len() as int) =~= s@.subrange(i as int, i + p@.len()));
                }
                assert(rest.skip(1) =~= s@.skip(i + 1));
            }
            out.push(s[i]);
            assert(before + (seq![s@[i as int]] + replace_all(s@.skip(i + 1), p@, r@)) =~= out@ + replace_all(s@.skip(i + 1), p@, r@));
            i = i + 1;
        }
    }
    assert(s@.skip(i as int) =~= Seq::<char>::empty());
    assert(out@ + Seq::<char>::empty() =~= out@);
    out
}

pub fn join_words_chars(ws: &Vec<Vec<char>>) -> (out: Vec<char>)
    ensures
        out@ == join_words(text::view_all(ws@)),
{
    let mut out: Vec<char> = Vec::new();
    let mut i: usize = 0;
    while i < ws.len()
        invariant
            i <= ws@.len(),
            out@ == join_words(text::view_all(ws@).take(i as int)),
        decreases ws@.len() - i,
    {
        let ghost before = out@;
        let ghost all = text::view_all(ws@);
        assert(all.take(i + 1).drop_last() =~= all.take(i as int));
        assert(all.take(i + 1).last() == ws@[i as int]@);
        if i > 0 {
            out.push(' ');
        }
        let w = &ws[i];
        let mut j: usize = 0;
        let ghost mid = out@;
        while j < w.len()
            invariant
                j <= w@.len(),
                out@ == mid + w@.take(j as int),
            decreases w@.len() - j,
        {
            out.push(w[j]);
            assert(mid + w@.take(j + 1) =~= (mid + w@.take(j as int)).push(w@[j as int]));
            j = j + 1;
        }
        assert(w@.take(w@.len() as int) =~= w@);
        proof {
            if i == 0 {
                assert(all.take(1) =~= seq![ws@[0]@]);
                assert(out@ =~= w@);
            } else {
                assert(mid =~= before + " "@) by {
                    reveal_strlit(" ");
                }
            }
        }
        i = i + 1;
    }
    assert(text::view_all(ws@).take(ws@.len() as int) =~= text::view_all(ws@));
    out
}

proof fn lemma_first_occurrence_unique(s: Seq<char>, p: Seq<char>, a: int, b: int)
    requires
        text::occurs_at(s, p, a),
        forall|j: int| 0 <= j < a ==> !text::occurs_at(s, p, j),
        text::occurs_at(s, p, b),
        forall|j: int| 0 <= j < b ==> !text::occurs_at(s, p, j),
    ensures
        a == b,
{
}

pub fn split_piece_1_chars(s: &[char], p: &[char]) -> (r: Vec<char>)
    ensures
        r@ == split_piece_1(s@, p@),
{
    match find_from(s, p, 0) {
        None => {
            assert(!exists|i: int| text::occurs_at(s@, p@, i));
            Vec::new()
        },
        Some(k) => {
            let ghost kk = choose|i: int|
                text::occurs_at(s@, p@, i) && forall|j: int|
                    0 <= j < i ==> !text::occurs_at(s@, p@, j);
            assert(text::occurs_at(s@, p@, k as int) && forall|j: int|
                0 <= j < k ==> !text::occurs_at(s@, p@, j));
            proof {
                lemma_first_occurrence_unique(s@, p@, k as int, kk);
            }
            assert(s@.len() == s.len());
            let start = k + p.len();
            let rest = &s[start..s.len()];
            assert(rest@ =~= s@.skip(k + p@.len()));
            match find_from(rest, p, 0) {
                None => {
                    assert(!exists|i: int| text::occurs_at(rest@, p@, i));
                    to_vec(rest)
                },
                Some(k2) => {
                    let ghost kk2 = choose|i: int|
                        text::occurs_at(rest@, p@, i) && forall|j: int|
                            0 <= j < i ==> !text::occurs_at(rest@, p@, j);
                    assert(text::occurs_at(rest@, p@, k2 as int) && forall|j: int|
                        0 <= j < k2 ==> !text::occurs_at(rest@, p@, j));
                    proof {
                        lemma_first_occurrence_unique(rest@, p@, k2 as int, kk2);
                    }
                    let r = to_vec(&rest[0..k2]);
                    assert(r@ =~= rest@.take(k2 as int));
                    r
                },
            }
        },
    }
}

/// The label and replacement of a DEFINE line.
pub fn define_of_chars(trimmed: &[char]) -> (r: Option<(Vec<char>, Vec<char>)>)
    ensures
        match define_of(trimmed@) {
            Some(d) => r matches Some(x) && x.0@ == d.0 && x.1@ == d.1,
            None => r is None,
        },
{
    if !is_define_chars(trimmed) {
        return None;
    }
    let ws = split_words(trimmed);
    if ws.len() < 3 {
        return None;
    }
    let label = to_vec(ws[1].as_slice());
    assert(text::view_all(ws@)[1] == ws@[1]@);
    let mut p = chars_of("DEFINE ");
    let mut j: usize = 0;
    let ghost p0 = p@;
    while j < label.len()
        invariant
            j <= label@.len(),
            p@ == p0 + label@.take(j as int),
        decreases label@.len() - j,
    {
        p.push(label[j]);
        assert(p0 + label@.take(j + 1) =~= (p0 + label@.take(j as int)).push(label@[j as int]));
        j = j + 1;
    }
    assert(label@.take(label@.len() as int) =~= label@);
    p.push(' ');
    proof {
        reveal_strlit(" ");
    }
    assert(p@ =~= "DEFINE "@ + label@ + " "@);
    let repl = split_piece_1_chars(trimmed, p.as_slice());
    Some((label, repl))
}

impl Preprocessor {
    fn has_label(&self, label: &[char]) -> (r: bool)
        ensures
            r == self.defs_view().map_values(|e: (Seq<char>, Seq<char>)| e.0).contains(label@),
    {
        let ghost names = self.defs_view().map_values(|e: (Seq<char>, Seq<char>)| e.0);
        let mut i: usize = 0;
        while i < self.defs.len()
            invariant
                i <= self.defs@.len(),
                names == self.defs_view().map_values(|e: (Seq<char>, Seq<char>)| e.0),
                names.len() == self.defs@.len(),
                forall|k: int| 0 <= k < i ==> names[k] != label@,
            decreases self.defs@.len() - i,
        {
            assert(names[i as int] == self.defs@[i as int].0@);
            if eq_chars(self.defs[i].0.as_slice(), label) {
                assert(names[i as int] == label@);
                return true;
            }
            i = i + 1;
        }
        false
    }

    /// Collects the DEFINEs of the lines; a name defined twice is an error.
    pub fn gather_defines_chars(&mut self, lines: &Vec<Vec<char>>) -> (r: CompilerResult<()>)
        ensures
            final(self).warnings_view() == old(self).warnings_view(),
            match gather_from(text::view_all(lines@), 0, old(self).defs_view()) {
                Ok(d) => r is Ok && final(self).defs_view() == d,
                Err((l, n)) => r matches Err(CompilerError::DuplicateDefinition { line, name })
                    && line == l && name@ == n,
            },
    {
        let ghost all = text::view_all(lines@);
        let mut i: usize = 0;
        while i < lines.len()
            invariant
                i <= lines@.len(),
                all == text::view_all(lines@),
                all.len() == lines@.len(),
                self.warnings_view() == old(self).warnings_view(),
                gather_from(all, 0, old(self).defs_view()) == gather_from(
                    all,
                    i as int,
                    self.defs_view(),
                ),
            decreases lines@.len() - i,
        {
            assert(all[i as int] == lines@[i as int]@);
            let trimmed = trim_chars(lines[i].as_slice());
            match define_of_chars(trimmed) {
                Some(d) => {
                    if self.has_label(d.0.as_slice()) {
                        return Err(
                            CompilerError::DuplicateDefinition {
                                line: i + 1,
                                name: string_of(d.0.as_slice()),
                            },
                        );
                    }
                    let ghost before = self.defs_view();
                    let ghost dv = (d.0@, d.1@);
                    self.defs.push(d);
                    assert(self.defs_view() =~= before.push(dv));
                },
                None => {},
            }
            i = i + 1;
        }
        Ok(())
    }

    /// Collects the DEFINEs of the lines; a name defined twice is an error.
    pub fn gather_defines(&mut self, lines: &[String]) -> (r: CompilerResult<()>)
        ensures
            final(self).warnings_view() == old(self).warnings_view(),
            match gather_from(lines@.map_values(|x: String| x@), 0, old(self).defs_view()) {
                Ok(d) => r is Ok && final(self).defs_view() == d,
                Err((l, n)) => r matches Err(CompilerError::DuplicateDefinition { line, name })
                    && line == l && name@ == n,
            },
    {
        let v = lines_of_strings(lines);
        self.gather_defines_chars(&v)
    }

    /// Whether `label`'s replacement, trimmed, is `expected`; for a label
    /// that is not defined, whether `expected` is `FALSE`.
    pub fn search_label_chars(&self, label: &[char], expected: &str) -> (r: bool)
        ensures
            r == search_label_spec(self.defs_view(), label@, expected@),
    {
        let ghost dv = self.defs_view();
        let mut i: usize = 0;
        assert(dv.skip(0) =~= dv);
        while i < self.defs.len()
            invariant
                i <= self.defs@.len(),
                dv == self.defs_view(),
                dv.len() == self.defs@.len(),
                search_label_spec(dv, label@, expected@) == search_label_spec(
                    dv.skip(i as int),
                    label@,
                    expected@,
                ),
            decreases self.defs@.len() - i,
        {
            assert(dv.skip(i as int)[0] == dv[i as int]);
            assert(dv[i as int] == (self.defs@[i as int].0@, self.defs@[i as int].1@));
            if eq_chars(self.defs[i].0.as_slice(), label) {
                let t = trim_chars(self.defs[i].1.as_slice());
                return text::eq_str(t, expected);
            }
            assert(dv.skip(i as int).drop_first() =~= dv.skip(i + 1));
            i = i + 1;
        }
        proof {
            reveal_strlit("FALSE");
        }
        assert(dv.skip(i as int) =~= Seq::<(Seq<char>, Seq<char>)>::empty());
        text::eq_str(&chars_of(expected), "FALSE")
    }

    fn ifdef_step_exec(&self, stack: &mut Vec<(bool, bool)>, trimmed: &[char])
        ensures
            final(stack)@ == ifdef_step(self.defs_view(), old(stack)@, trimmed@),
    {
        let ws = split_words(trimmed);
        let label: Vec<char> = if ws.len() >= 2 {
            assert(text::view_all(ws@)[1] == ws@[1]@);
            to_vec(ws[1].as_slice())
        } else {
            Vec::new()
        };
        if is_ifdef_chars(trimmed) {
            let found = self.search_label_chars(label.as_slice(), "TRUE");
            stack.push((true, found));
        } else if is_ifnotdef_chars(trimmed) {
            let found = !self.search_label_chars(label.as_slice(), "FALSE");
            stack.push((false, found));
        } else if is_elsedef_chars(trimmed) {
            match stack.pop() {
                Some(top) => {
                    stack.push((top.0, !top.1));
                },
                None => {},
            }
        } else if is_endifdef_chars(trimmed) {
            stack.pop();
        }
    }

    /// Each line inside a conditional block whose condition fails, marked as
    /// disabled.
    pub fn parse_ifdefs_chars(&self, lines: &Vec<Vec<char>>) -> (r: Vec<Vec<char>>)
        ensures
            text::view_all(r@) == ifdefs_from(self.defs_view(), text::view_all(lines@), 0, Seq::empty()),
    {
        let ghost all = text::view_all(lines@);
        let mut result: Vec<Vec<char>> = Vec::new();
        let mut stack: Vec<(bool, bool)> = Vec::new();
        let mut i: usize = 0;
        while i < lines.len()
            invariant
                i <= lines@.len(),
                all == text::view_all(lines@),
                all.len() == lines@.len(),
                ifdefs_from(self.defs_view(), all, 0, Seq::empty()) == text::view_all(result@)
                    + ifdefs_from(self.defs_view(), all, i as int, stack@),
            decreases lines@.len() - i,
        {
            assert(all[i as int] == lines@[i as int]@);
            let trimmed = trim_chars(lines[i].as_slice());
            let ghost st0 = stack@;
            self.ifdef_step_exec(&mut stack, trimmed);
            let mut enabled = true;
            let mut k: usize = 0;
            while k < stack.len()
                invariant
                    k <= stack@.len(),
                    enabled == forall|m: int| 0 <= m < k ==> (#[trigger] stack@[m]).0 == stack@[m].1,
                decreases stack@.len() - k,
            {
                if stack[k].0 != stack[k].1 {
                    enabled = false;
                }
                k = k + 1;
            }
            let out = if enabled {
                to_vec(lines[i].as_slice())
            } else {
                let mut o = chars_of("PREPROCESSOR_DISABLED ");
                let line = &lines[i];
                let mut j: usize = 0;
                let ghost o0 = o@;
                while j < line.len()
                    invariant
                        j <= line@.len(),
                        o@ == o0 + line@.take(j as int),
                    decreases line@.len() - j,
                {
                    o.push(line[j]);
                    assert(o0 + line@.take(j + 1) =~= (o0 + line@.take(j as int)).push(line@[j as int]));
                    j = j + 1;
                }
                assert(line@.take(line@.len() as int) =~= line@);
                o
            };
            let ghost before = text::view_all(result@);
            proof {
                text::lemma_view_all_push(result@, out);
            }
            result.push(out);
            proof {
                reveal_strlit("PREPROCESSOR_DISABLED ");
            }
            assert(enabled == ifdef_enabled(stack@));
            assert(before + ifdefs_from(self.defs_view(), all, i as int, st0) =~= text::view_all(
                result@,
            ) + ifdefs_from(self.defs_view(), all, i + 1, stack@));
            i = i + 1;
        }
        result
    }
}

pub fn lines_of_strings(lines: &[String]) -> (r: Vec<Vec<char>>)
    ensures
        text::view_all(r@) == lines@.map_values(|x: String| x@),
{
    let mut r: Vec<Vec<char>> = Vec::new();
    let mut i: usize = 0;
    while i < lines.len()
        invariant
            i <= lines@.len(),
            r@.len() == i,
            forall|k: int| 0 <= k < i ==> (#[trigger] r@[k])@ == lines@[k]@,
        decreases lines@.len() - i,
    {
        r.push(chars_of(lines[i].as_str()));
        i = i + 1;
    }
    assert(text::view_all(r@) =~= lines@.map_values(|x: String| x@));
    r
}

pub open spec fn defs_of(d: Seq<(Vec<char>, Vec<char>)>) -> Seq<(Seq<char>, Seq<char>)> {
    d.map_values(|e: (Vec<char>, Vec<char>)| (e.0@, e.1@))
}

pub proof fn lemma_warnings_push(ws: Seq<CompilerWarning>, ts: Seq<Replacement>, w: CompilerWarning, t: Replacement)
    requires
        warnings_match(ws, ts),
        warning_matches(w, t),
    ensures
        warnings_match(ws.push(w), ts.push(t)),
{
    assert forall|i: int| 0 <= i < ws.push(w).len() implies warning_matches(
        #[trigger] ws.push(w)[i],
        ts.push(t)[i],
    ) by {
        if i < ws.len() {
            assert(ws.push(w)[i] == ws[i]);
        }
    }
}

fn report(warnings: &mut Vec<CompilerWarning>, line_no: usize, l: &[char], r: &[char]) -> (t: Ghost<Replacement>)
    ensures
        final(warnings)@ == old(warnings)@.push(final(warnings)@.last()),
        final(warnings)@.len() == old(warnings)@.len() + 1,
        t@ == (line_no as nat, l@, r@),
        warning_matches(final(warnings)@.last(), t@),
{
    warnings.push(
        CompilerWarning::DefineReplacement {
            line: line_no,
            label: string_of(l),
            old: string_of(l),
            new: string_of(r),
        },
    );
    assert(final(warnings)@ =~= old(warnings)@.push(final(warnings)@.last()));
    Ghost((line_no as nat, l@, r@))
}

/// Replaces the `#`-names of `defs` where they occur in `line`, reporting
/// each one replaced unless `quiet`.
fn hash_replace_exec(defs: &Vec<(Vec<char>, Vec<char>)>, line: Vec<char>, line_no: usize, quiet: bool, warnings: &mut Vec<CompilerWarning>) -> (r: Vec<char>)
    ensures
        r@ == hash_replace(defs_of(defs@), 0, line@, line_no as nat, quiet).0,
        final(warnings)@.take(old(warnings)@.len() as int) == old(warnings)@,
        final(warnings)@.len() >= old(warnings)@.len(),
        warnings_match(
            final(warnings)@.skip(old(warnings)@.len() as int),
            hash_replace(defs_of(defs@), 0, line@, line_no as nat, quiet).1,
        ),
{
    let ghost dv = defs_of(defs@);
    let ghost n0 = old(warnings)@.len();
    let ghost mut reps: Seq<Replacement> = Seq::empty();
    let mut cur = line;
    let mut i: usize = 0;
    proof {
        reveal_strlit("#");
    }
    assert(warnings@.skip(n0 as int) =~= Seq::<CompilerWarning>::empty());
    while i < defs.len()
        invariant
            i <= defs@.len(),
            dv == defs_of(defs@),
            dv.len() == defs@.len(),
            hash_replace(dv, 0, line@, line_no as nat, quiet) == (
                hash_replace(dv, i as int, cur@, line_no as nat, quiet).0,
                reps + hash_replace(dv, i as int, cur@, line_no as nat, quiet).1,
            ),
            warnings@.len() >= n0,
            warnings@.take(n0 as int) == old(warnings)@,
            warnings_match(warnings@.skip(n0 as int), reps),
        decreases defs@.len() - i,
    {
        assert(dv[i as int] == (defs@[i as int].0@, defs@[i as int].1@));
        let l = defs[i].0.as_slice();
        let r = defs[i].1.as_slice();
        if starts_with_str(l, "#") && text::contains_chars(cur.as_slice(), l) {
            if !quiet {
                let ghost wbefore = warnings@;
                let t = report(warnings, line_no, l, r);
                proof {
                    assert(warnings@.skip(n0 as int) =~= wbefore.skip(n0 as int).push(warnings@.last()));
                    assert(warnings@.take(n0 as int) =~= wbefore.take(n0 as int));
                    lemma_warnings_push(wbefore.skip(n0 as int), reps, warnings@.last(), t@);
                    reps = reps.push(t@);
                }
            }
            let next = replace_all_chars(cur.as_slice(), l, r);
            proof {
                let rest = hash_replace(dv, i + 1, next@, line_no as nat, quiet);
                if quiet {
                    assert(Seq::<Replacement>::empty() + rest.1 =~= rest.1);
                } else {
                    assert(reps.drop_last() + (seq![reps.last()] + rest.1) =~= reps + rest.1);
                }
            }
            cur = next;
        }
        i = i + 1;
    }
    assert(reps + Seq::<Replacement>::empty() =~= reps);
    cur
}

/// The index of the first plain (non-`#`) name of `defs` that is a word of `line`.
fn word_label_exec(defs: &Vec<(Vec<char>, Vec<char>)>, words: &Vec<Vec<char>>) -> (r: Option<usize>)
    ensures
        match r {
            Some(k) => word_label_from(defs_of(defs@), 0, text::view_all(words@)) == Some(k as int)
                && k < defs@.len(),
            None => word_label_from(defs_of(defs@), 0, text::view_all(words@)) is None,
        },
{
    let ghost dv = defs_of(defs@);
    let ghost wv = text::view_all(words@);
    let mut i: usize = 0;
    proof {
        reveal_strlit("#");
    }
    while i < defs.len()
        invariant
            i <= defs@.len(),
            dv == defs_of(defs@),
            wv == text::view_all(words@),
            dv.len() == defs@.len(),
            word_label_from(dv, 0, wv) == word_label_from(dv, i as int, wv),
        decreases defs@.len() - i,
    {
        assert(dv[i as int] == (defs@[i as int].0@, defs@[i as int].1@));
        let l = defs[i].0.as_slice();
        if !starts_with_str(l, "#") {
            let mut j: usize = 0;
            let mut found = false;
            #[verifier::loop_isolation(false)]
            while j < words.len()
                invariant
                    j <= words@.len(),
                    wv == text::view_all(words@),
                    !found,
                    forall|m: int| 0 <= m < j ==> wv[m] != l@,
                decreases words@.len() - j,
            {
                assert(wv[j as int] == words@[j as int]@);
                if eq_chars(words[j].as_slice(), l) {
                    found = true;
                    assert(wv.contains(l@));
                    return Some(i);
                }
                j = j + 1;
            }
            assert(!wv.contains(l@));
        }
        i = i + 1;
    }
    None
}

/// The words with each one equal to `l` replaced by `r`, reporting each
/// replacement unless `quiet`.
fn replace_words_exec(ws: &Vec<Vec<char>>, l: &[char], r: &[char], line_no: usize, quiet: bool, warnings: &mut Vec<CompilerWarning>) -> (res: Vec<Vec<char>>)
    ensures
        text::view_all(res@) == replace_words(text::view_all(ws@), l@, r@),
        final(warnings)@.take(old(warnings)@.len() as int) == old(warnings)@,
        final(warnings)@.len() >= old(warnings)@.len(),
        warnings_match(
            final(warnings)@.skip(old(warnings)@.len() as int),
            if quiet {
                Seq::empty()
            } else {
                word_reports(text::view_all(ws@), l@, r@, line_no as nat)
            },
        ),
{
    let ghost wv = text::view_all(ws@);
    let ghost n0 = old(warnings)@.len();
    let mut res: Vec<Vec<char>> = Vec::new();
    let mut i: usize = 0;
    assert(warnings@.skip(n0 as int) =~= Seq::<CompilerWarning>::empty());
    while i < ws.len()
        invariant
            i <= ws@.len(),
            wv == text::view_all(ws@),
            wv.len() == ws@.len(),
            text::view_all(res@) == replace_words(wv.take(i as int), l@, r@),
            warnings@.len() >= n0,
            warnings@.take(n0 as int) == old(warnings)@,
            warnings_match(
                warnings@.skip(n0 as int),
                if quiet {
                    Seq::empty()
                } else {
                    word_reports(wv.take(i as int), l@, r@, line_no as nat)
                },
            ),
        decreases ws@.len() - i,
    {
        assert(wv[i as int] == ws@[i as int]@);
        assert(wv.take(i + 1).drop_last() =~= wv.take(i as int));
        let ghost wbefore = warnings@;
        let w = if eq_chars(ws[i].as_slice(), l) {
            if !quiet {
                let t = report(warnings, line_no, l, r);
                proof {
                    assert(warnings@.skip(n0 as int) =~= wbefore.skip(n0 as int).push(warnings@.last()));
                    assert(warnings@.take(n0 as int) =~= wbefore.take(n0 as int));
                    lemma_warnings_push(wbefore.skip(n0 as int), word_reports(wv.take(i as int), l@, r@, line_no as nat), warnings@.last(), t@);
                    assert(word_reports(wv.take(i as int), l@, r@, line_no as nat).push(t@) =~= word_reports(wv.take(i + 1), l@, r@, line_no as nat));
                }
            }
            to_vec(r)
        } else {
            proof {
                assert(word_reports(wv.take(i as int), l@, r@, line_no as nat) =~= word_reports(wv.take(i + 1), l@, r@, line_no as nat));
            }
            to_vec(ws[i].as_slice())
        };
        proof {
            text::lemma_view_all_push(res@, w);
        }
        res.push(w);
        assert(text::view_all(res@) =~= replace_words(wv.take(i + 1), l@, r@));
        i = i + 1;
    }
    assert(wv.take(ws@.len() as int) =~= wv);
    res
}

/// The preprocessor's effect on one line (see `process_line_spec`).
fn process_line_exec(defs: &Vec<(Vec<char>, Vec<char>)>, st: ProcessState, line: &Vec<char>, line_no: usize, warnings: &mut Vec<CompilerWarning>) -> (r: (ProcessState, Vec<char>))
    ensures
        r.0 == process_line_spec(defs_of(defs@), st, line@, line_no as nat).0,
        r.1@ == process_line_spec(defs_of(defs@), st, line@, line_no as nat).1,
        final(warnings)@.take(old(warnings)@.len() as int) == old(warnings)@,
        final(warnings)@.len() >= old(warnings)@.len(),
        warnings_match(
            final(warnings)@.skip(old(warnings)@.len() as int),
            process_line_spec(defs_of(defs@), st, line@, line_no as nat).2,
        ),
{
    let ghost n0 = old(warnings)@.len();
    assert(warnings@.skip(n0 as int) =~= Seq::<CompilerWarning>::empty());
    assert(warnings@.take(n0 as int) =~= warnings@);
    let t = trim_chars(line.as_slice());
    if starts_with_str(t, "REM ducky-ignore-next-line") {
        return (ProcessState { quiet: true, ..st }, to_vec(line.as_slice()));
    }
    if t.len() == 0 || is_rem_chars(t) || is_define_chars(t) || is_ifdef_chars(t) || is_ifnotdef_chars(t)
        || is_elsedef_chars(t) || is_preprocessor_disabled_chars(t) {
        return (st, to_vec(line.as_slice()));
    }
    let (ins, insl) = if is_end_string_chars(t) {
        (false, false)
    } else if is_string_block_chars(t) {
        (true, st.in_stringln)
    } else if is_stringln_block_chars(t) {
        (st.in_string, true)
    } else {
        (st.in_string, st.in_stringln)
    };
    let next = ProcessState { in_string: ins, in_stringln: insl, quiet: false };
    if ins || insl {
        let out = hash_replace_exec(defs, to_vec(line.as_slice()), line_no, st.quiet, warnings);
        return (next, out);
    }
    let ws = split_words(line.as_slice());
    let ghost dv = defs_of(defs@);
    let ghost spec = process_line_spec(dv, st, line@, line_no as nat);
    let ghost mut wr: Seq<Replacement> = Seq::empty();
    let mid = match word_label_exec(defs, &ws) {
        Some(k) => {
            assert(dv[k as int] == (defs@[k as int].0@, defs@[k as int].1@));
            let replaced = replace_words_exec(&ws, defs[k].0.as_slice(), defs[k].1.as_slice(), line_no, st.quiet, warnings);
            let j = join_words_chars(&replaced);
            proof {
                assert(text::view_all(ws@) == text::words(line@));
                assert(word_label_from(dv, 0, text::words(line@)) == Some(k as int));
                assert(j@ == join_words(replace_words(text::words(line@), dv[k as int].0, dv[k as int].1)));
                wr = if st.quiet {
                    Seq::<Replacement>::empty()
                } else {
                    word_reports(text::words(line@), dv[k as int].0, dv[k as int].1, line_no as nat)
                };
                assert(warnings_match(warnings@.skip(n0 as int), wr));
            }
            j
        },
        None => {
            assert(warnings@.skip(n0 as int) =~= Seq::<CompilerWarning>::empty());
            assert(text::view_all(ws@) == text::words(line@));
            assert(word_label_from(dv, 0, text::words(line@)) is None);
            to_vec(line.as_slice())
        },
    };
    assert(warnings_match(warnings@.skip(n0 as int), wr));
    assert(warnings@.take(n0 as int) == old(warnings)@);
    let ghost n1 = warnings@.len();
    let ghost w1 = warnings@;
    let out = hash_replace_exec(defs, mid, line_no, st.quiet, warnings);
    proof {
        let h = hash_replace(dv, 0, mid@, line_no as nat, st.quiet);
        let tt = text::trim(line@);
        assert(!text::starts_with(tt, "REM ducky-ignore-next-line"@));
        assert(!passes_through(tt));
        assert(!ins && !insl);
        let smid = match word_label_from(dv, 0, text::words(line@)) {
            Some(k) => join_words(replace_words(text::words(line@), dv[k].0, dv[k].1)),
            None => line@,
        };
        assert(smid == mid@);
        assert(spec.2 == wr + h.1);
        let first = w1.skip(n0 as int);
        let second = warnings@.skip(n1 as int);
        assert(warnings@.take(n1 as int) == w1);
        assert(warnings@.skip(n0 as int) =~= first + second);
        assert(warnings@.take(n0 as int) =~= w1.take(n0 as int));
        assert forall|i: int| 0 <= i < (first + second).len() implies warning_matches(
            #[trigger] (first + second)[i],
            (wr + h.1)[i],
        ) by {
            if i < first.len() {
                assert((first + second)[i] == first[i]);
            } else {
                assert((first + second)[i] == second[i - first.len()]);
            }
        }
    }
    (next, out)
}

impl Preprocessor {
    /// Replaces defined names in the lines, and reports each replacement.
    pub fn process_chars(&mut self, lines: &Vec<Vec<char>>) -> (r: Vec<Vec<char>>)
        ensures
            final(self).defs_view() == old(self).defs_view(),
            text::view_all(r@) == process_from(
                old(self).defs_view(),
                text::view_all(lines@),
                0,
                initial_process_state(),
            ).0,
            final(self).warnings_view().take(old(self).warnings_view().len() as int) == old(
                self,
            ).warnings_view(),
            final(self).warnings_view().len() >= old(self).warnings_view().len(),
            warnings_match(
                final(self).warnings_view().skip(old(self).warnings_view().len() as int),
                process_from(
                    old(self).defs_view(),
                    text::view_all(lines@),
                    0,
                    initial_process_state(),
                ).1,
            ),
    {
        let ghost all = text::view_all(lines@);
        let ghost dv = self.defs_view();
        let ghost n0 = self.warnings@.len();
        let ghost mut reps: Seq<Replacement> = Seq::empty();
        let mut result: Vec<Vec<char>> = Vec::new();
        let mut st = ProcessState { in_string: false, in_stringln: false, quiet: false };
        let mut i: usize = 0;
        assert(self.warnings@.skip(n0 as int) =~= Seq::<CompilerWarning>::empty());
        assert(self.warnings@.take(n0 as int) =~= self.warnings@);
        while i < lines.len()
            invariant
                i <= lines@.len(),
                all == text::view_all(lines@),
                all.len() == lines@.len(),
                dv == self.defs_view(),
                dv == old(self).defs_view(),
                process_from(dv, all, 0, initial_process_state()) == (
                    text::view_all(result@) + process_from(dv, all, i as int, st).0,
                    reps + process_from(dv, all, i as int, st).1,
                ),
                self.warnings@.len() >= n0,
                n0 == old(self).warnings_view().len(),
                self.warnings@.take(n0 as int) == old(self).warnings_view(),
                warnings_match(self.warnings@.skip(n0 as int), reps),
            decreases lines@.len() - i,
        {
            assert(all[i as int] == lines@[i as int]@);
            let ghost w1 = self.warnings@;
            let (st2, out) = process_line_exec(&self.defs, st, &lines[i], i + 1, &mut self.warnings);
            proof {
                let step = process_line_spec(dv, st, all[i as int], (i + 1) as nat);
                let rest = process_from(dv, all, i + 1, st2);
                let first = w1.skip(n0 as int);
                let second = self.warnings@.skip(w1.len() as int);
                assert(self.warnings@.take(w1.len() as int) == w1);
                assert(self.warnings@.skip(n0 as int) =~= first + second);
                assert(self.warnings@.take(n0 as int) =~= w1.take(n0 as int));
                assert forall|k: int| 0 <= k < (first + second).len() implies warning_matches(
                    #[trigger] (first + second)[k],
                    (reps + step.2)[k],
                ) by {
                    if k < first.len() {
                        assert((first + second)[k] == first[k]);
                    } else {
                        assert((first + second)[k] == second[k - first.len()]);
                    }
                }
                assert(reps + (step.2 + rest.1) =~= (reps + step.2) + rest.1);
                reps = reps + step.2;
                text::lemma_view_all_push(result@, out);
                assert(text::view_all(result@) + (seq![out@] + rest.0) =~= text::view_all(result@).push(out@) + rest.0);
            }
            result.push(out);
            st = st2;
            i = i + 1;
        }
        assert(text::view_all(result@) + Seq::<Seq<char>>::empty() =~= text::view_all(result@));
        assert(reps + Seq::<Replacement>::empty() =~= reps);
        result
    }

    /// Replaces defined names in the lines, and reports each replacement.
    pub fn process(&mut self, lines: Vec<String>) -> (r: Vec<String>)
        ensures
            r@.map_values(|x: String| x@) == process_from(
                old(self).defs_view(),
                lines@.map_values(|x: String| x@),
                0,
                initial_process_state(),
            ).0,
            final(self).warnings_view().take(old(self).warnings_view().len() as int) == old(
                self,
            ).warnings_view(),
            warnings_match(
                final(self).warnings_view().skip(old(self).warnings_view().len() as int),
                process_from(
                    old(self).defs_view(),
                    lines@.map_values(|x: String| x@),
                    0,
                    initial_process_state(),
                ).1,
            ),
    {
        let v = lines_of_strings(lines.as_slice());
        let out = self.process_chars(&v);
        crate::encoder::strings_of(&out)
    }

    /// Each line inside a conditional block whose condition fails, marked as
    /// disabled.
    pub fn parse_ifdefs(&self, lines: Vec<String>) -> (r: CompilerResult<Vec<String>>)
        ensures
            r matches Ok(v) && v@.map_values(|x: String| x@) == ifdefs_from(
                self.defs_view(),
                lines@.map_values(|x: String| x@),
                0,
                Seq::empty(),
            ),
    {
        let v = lines_of_strings(lines.as_slice());
        let out = self.parse_ifdefs_chars(&v);
        Ok(crate::encoder::strings_of(&out))
    }
}

} // verus!
