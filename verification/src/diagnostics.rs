//! Diagnostics: the compiler's errors and warnings as an editor shows them.
use vstd::prelude::*;

use crate::code_actions::{Diagnostic, DiagnosticSeverity};
use crate::compiler::DuckyCompiler;
use crate::errors::{CompilerError, CompilerWarning};
use crate::text::{chars_of, string_of};
use crate::text_edit::{Position, Range};

verus! {

/// A diagnostic as plain values: its range, severity, source and message.
pub type DiagnosticView = (Range, Option<DiagnosticSeverity>, Option<Seq<char>>, Seq<char>);

/// The view of a diagnostic that has no code.
pub open spec fn diagnostic_view(d: Diagnostic) -> Option<DiagnosticView> {
    if d.code is None {
        Some((d.range, d.severity, crate::code_actions::opt_view(d.source), d.message@))
    } else {
        None
    }
}

/// All of line `line`.
pub open spec fn full_line(line: u32) -> Range {
    Range {
        start: Position { line, character: 0 },
        end: Position { line, character: u32::MAX },
    }
}

/// The diagnostic of a compiler error: on the line the compiler stopped at.
pub open spec fn error_diagnostic(e: CompilerError, line: usize) -> DiagnosticView {
    (
        full_line(line as u32),
        Some(DiagnosticSeverity::Error),
        Some("ducky-compiler"@),
        e.spec_message(),
    )
}

/// The diagnostic of a compiler warning: on its line, counted from 0.
pub open spec fn warning_diagnostic(w: CompilerWarning) -> DiagnosticView {
    let l = w.spec_line();
    (
        full_line((if l > 0 { l - 1 } else { 0 }) as u32),
        Some(DiagnosticSeverity::Warning),
        Some("ducky-compiler"@),
        w.spec_message(),
    )
}

/// The diagnostics of a compilation: one per error, then one per warning.
pub open spec fn compiler_diagnostics(c: DuckyCompiler) -> Seq<DiagnosticView> {
    c.errors@.map_values(|e: CompilerError| error_diagnostic(e, c.current_line_index)) + c.warnings@.map_values(
        |w: CompilerWarning| warning_diagnostic(w),
    )
}

/// The views of a list of diagnostics.
pub open spec fn diagnostics_view(v: Seq<Diagnostic>) -> Seq<Option<DiagnosticView>> {
    v.map_values(|d: Diagnostic| diagnostic_view(d))
}

fn source_name() -> (r: String)
    ensures
        r@ == "ducky-compiler"@,
{
    string_of(chars_of("ducky-compiler").as_slice())
}

/// The compiler's errors and warnings as diagnostics: each error on the line
/// the compiler stopped at, each warning on its own line (counted from 0),
/// each over the whole line.
pub fn compiler_to_diagnostics(compiler: &DuckyCompiler, _uri: &str) -> (r: Vec<Diagnostic>)
    ensures
        diagnostics_view(r@) == compiler_diagnostics(*compiler).map_values(
            |d: DiagnosticView| Some(d),
        ),
{
    let mut out: Vec<Diagnostic> = Vec::new();
    let ghost want = compiler_diagnostics(*compiler).map_values(|d: DiagnosticView| Some(d));
    let line = compiler.current_line_index as u32;
    let mut k: usize = 0;
    while k < compiler.errors.len()
        invariant
            k <= compiler.errors@.len(),
            line == compiler.current_line_index as u32,
            want == compiler_diagnostics(*compiler).map_values(|d: DiagnosticView| Some(d)),
            diagnostics_view(out@) == want.take(k as int),
        decreases compiler.errors@.len() - k,
    {
        let d = Diagnostic {
            range: Range {
                start: Position { line, character: 0 },
                end: Position { line, character: u32::MAX },
            },
            severity: Some(DiagnosticSeverity::Error),
            code: None,
            source: Some(source_name()),
            message: compiler.errors[k].message(),
        };
        let ghost before = diagnostics_view(out@);
        out.push(d);
        assert(diagnostics_view(out@) =~= before.push(diagnostic_view(d)));
        k = k + 1;
        assert(diagnostics_view(out@) =~= want.take(k as int));
    }
    let n = compiler.errors.len();
    let mut j: usize = 0;
    while j < compiler.warnings.len()
        invariant
            j <= compiler.warnings@.len(),
            n == compiler.errors@.len(),
            want == compiler_diagnostics(*compiler).map_values(|d: DiagnosticView| Some(d)),
            diagnostics_view(out@) == want.take(n + j),
        decreases compiler.warnings@.len() - j,
    {
        let w = &compiler.warnings[j];
        let wl = w.line();
        let l: u32 = (if wl > 0 { wl - 1 } else { 0 }) as u32;
        let d = Diagnostic {
            range: Range {
                start: Position { line: l, character: 0 },
                end: Position { line: l, character: u32::MAX },
            },
            severity: Some(DiagnosticSeverity::Warning),
            code: None,
            source: Some(source_name()),
            message: w.message(),
        };
        let ghost before = diagnostics_view(out@);
        out.push(d);
        assert(diagnostics_view(out@) =~= before.push(diagnostic_view(d)));
        j = j + 1;
        assert(diagnostics_view(out@) =~= want.take(n + j));
    }
    assert(want.take(n + j) =~= want);
    out
}

} // verus!
