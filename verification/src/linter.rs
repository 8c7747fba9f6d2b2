//! The linter: style and suspicious-value checks on a DuckyScript program.
use vstd::prelude::*;

use crate::errors::append_decimal;
use crate::numbers::{self, parse_unsigned_chars};
use crate::text::{
    self, chars_of, ends_with_str, split_lines, starts_with_str, string_of, trim_chars,
    trim_end_chars, utf8_len_sat, utf8_longer,
};

verus! {

/// Which checks the linter makes.
#[derive(Debug, Clone)]
pub struct LinterConfig {
    pub enabled: bool,
    pub check_line_length: bool,
    pub max_line_length: usize,
    pub check_trailing_whitespace: bool,
    pub check_mixed_indentation: bool,
    pub check_unused_variables: bool,
    pub check_undefined_labels: bool,
    pub require_final_newline: bool,
    pub warn_on_deprecated_syntax: bool,
    pub check_suspicious_delays: bool,
    pub suspicious_delay_threshold: u32,
}

impl Default for LinterConfig {
    fn default() -> (r: Self)
        ensures
            !r.enabled,
            r.check_line_length,
            r.max_line_length == 120,
            r.check_trailing_whitespace,
            r.check_mixed_indentation,
            r.check_unused_variables,
            r.check_undefined_labels,
            !r.require_final_newline,
            !r.warn_on_deprecated_syntax,
            !r.check_suspicious_delays,
            r.suspicious_delay_threshold == 10000,
    {
        LinterConfig {
            enabled: false,
            check_line_length: true,
            max_line_length: 120,
            check_trailing_whitespace: true,
            check_mixed_indentation: true,
            check_unused_variables: true,
            check_undefined_labels: true,
            require_final_newline: false,
            warn_on_deprecated_syntax: false,
            check_suspicious_delays: false,
            suspicious_delay_threshold: 10000,
        }
    }
}

/// How serious an issue is.
#[derive(Debug, Clone, Copy, PartialEq, Eq, Structural)]
pub enum LintSeverity {
    Error,
    Warning,
    Info,
}

/// An issue found in a program.
#[derive(Debug, Clone)]
pub struct LintIssue {
    pub line: usize,
    pub column: usize,
    pub severity: LintSeverity,
    pub message: String,
    pub rule: String,
}

/// An issue as a value: line, column, severity, message and rule.
pub type Issue = (nat, nat, LintSeverity, Seq<char>, Seq<char>);

/// The issue is the value `i`.
pub open spec fn issue_is(x: LintIssue, i: Issue) -> bool {
    &&& x.line as nat == i.0
    &&& x.column as nat == i.1
    &&& x.severity == i.2
    &&& x.message@ == i.3
    &&& x.rule@ == i.4
}

/// A byte count, or `usize::MAX` when it does not fit.
pub open spec fn sat(n: nat) -> nat {
    if n <= usize::MAX {
        n
    } else {
        usize::MAX as nat
    }
}

/// The delay of a `DELAY n` line, when it has one.
pub open spec fn delay_value(line: Seq<char>) -> Option<nat> {
    let t = text::trim(line);
    if text::starts_with(t, "DELAY "@) {
        numbers::parse_unsigned(text::trim(t.skip(6)), 0xffff_ffff)
    } else {
        None
    }
}

/// The issues of one line, numbered `n` (from 1).
pub open spec fn line_issues(config: LinterConfig, line: Seq<char>, n: nat) -> Seq<Issue> {
    let long = if config.check_line_length && text::utf8_len(line) > config.max_line_length {
        seq![
            (
                n,
                config.max_line_length as nat,
                LintSeverity::Warning,
                "Line exceeds maximum length of "@ + numbers::decimal(config.max_line_length as nat)
                    + " characters"@,
                "max-line-length"@,
            ),
        ]
    } else {
        Seq::empty()
    };
    let trailing = if config.check_trailing_whitespace && (text::ends_with(line, " "@)
        || text::ends_with(line, "\t"@)) {
        seq![
            (
                n,
                sat(text::utf8_len(text::trim_end(line))),
                LintSeverity::Info,
                "Trailing whitespace detected"@,
                "no-trailing-whitespace"@,
            ),
        ]
    } else {
        Seq::empty()
    };
    let mixed = if config.check_mixed_indentation && text::starts_with(line, " "@) && line.contains(
        '\t',
    ) {
        seq![
            (
                n,
                0,
                LintSeverity::Warning,
                "Mixed spaces and tabs in indentation"@,
                "no-mixed-indentation"@,
            ),
        ]
    } else {
        Seq::empty()
    };
    let delay = if config.check_suspicious_delays && delay_value(line) is Some && delay_value(
        line,
    ).unwrap() > config.suspicious_delay_threshold {
        seq![
            (
                n,
                0,
                LintSeverity::Warning,
                "Suspicious delay value: "@ + numbers::decimal(delay_value(line).unwrap())
                    + "ms (very long)"@,
                "suspicious-delay"@,
            ),
        ]
    } else {
        Seq::empty()
    };
    long + trailing + mixed + delay
}

/// The issues of the lines, the first of them numbered `n` (from 1).
pub open spec fn lines_issues(config: LinterConfig, lines: Seq<Seq<char>>, n: nat) -> Seq<Issue>
    decreases lines.len(),
{
    if lines.len() == 0 {
        Seq::empty()
    } else {
        line_issues(config, lines[0], n) + lines_issues(config, lines.drop_first(), n + 1)
    }
}

/// What `lint` finds in `source`.
pub open spec fn lint_issues(config: LinterConfig, source: Seq<char>) -> Seq<Issue> {
    if !config.enabled {
        Seq::empty()
    } else {
        let ls = text::lines(source);
        let body = lines_issues(config, ls, 1);
        if config.require_final_newline && !text::ends_with(source, "\n"@) {
            body.push(
                (
                    ls.len(),
                    if ls.len() > 0 {
                        sat(text::utf8_len(ls.last()))
                    } else {
                        0
                    },
                    LintSeverity::Info,
                    "File should end with a newline"@,
                    "final-newline"@,
                ),
            )
        } else {
            body
        }
    }
}

/// Checks programs.
pub struct DuckyLinter {
    config: LinterConfig,
}

/// A string made of a literal, a number and a literal.
fn message_with_number(a: &str, n: u64, b: &str) -> (s: String)
    ensures
        s@ == a@ + numbers::decimal(n as nat) + b@,
{
    let mut s = string_of(chars_of(a).as_slice());
    append_decimal(&mut s, n);
    let bc = chars_of(b);
    let mut i: usize = 0;
    let ghost s0 = s@;
    while i < bc.len()
        invariant
            i <= bc@.len(),
            s@ == s0 + bc@.take(i as int),
        decreases bc@.len() - i,
    {
        text::push_char(&mut s, bc[i]);
        assert(s0 + bc@.take(i + 1) =~= (s0 + bc@.take(i as int)).push(bc@[i as int]));
        i = i + 1;
    }
    assert(bc@.take(bc@.len() as int) =~= bc@);
    s
}

/// An issue.
fn issue(line: usize, column: usize, severity: LintSeverity, message: String, rule: &str) -> (x:
    LintIssue)
    ensures
        issue_is(x, (line as nat, column as nat, severity, message@, rule@)),
{
    LintIssue { line, column, severity, message, rule: rule.to_string() }
}

impl DuckyLinter {
    /// The linter's settings.
    pub closed spec fn config_view(&self) -> LinterConfig {
        self.config
    }

    pub fn new(config: LinterConfig) -> (r: Self)
        ensures
            r.config_view() == config,
    {
        DuckyLinter { config }
    }

    /// Appends the issues of one line.
    fn lint_line(
        &self,
        line: &[char],
        n: usize,
        issues: &mut Vec<LintIssue>,
        Ghost(base): Ghost<Seq<LintIssue>>,
        Ghost(before): Ghost<Seq<Issue>>,
    )
        requires
            issues_agree(old(issues)@, base, before),
        ensures
            issues_agree(final(issues)@, base, before + line_issues(self.config, line@, n as nat)),
    {
        let ghost want = line_issues(self.config, line@, n as nat);
        let ghost mut got: Seq<Issue> = before;
        proof {
            reveal_strlit(" ");
            reveal_strlit("\t");
        }
        let ghost long = if self.config.check_line_length && text::utf8_len(line@)
            > self.config.max_line_length {
            seq![
                (
                    n as nat,
                    self.config.max_line_length as nat,
                    LintSeverity::Warning,
                    "Line exceeds maximum length of "@ + numbers::decimal(
                        self.config.max_line_length as nat,
                    ) + " characters"@,
                    "max-line-length"@,
                ),
            ]
        } else {
            Seq::<Issue>::empty()
        };
        if self.config.check_line_length && utf8_longer(line, self.config.max_line_length) {
            let m = message_with_number(
                "Line exceeds maximum length of ",
                self.config.max_line_length as u64,
                " characters",
            );
            let x = issue(n, self.config.max_line_length, LintSeverity::Warning, m, "max-line-length");
            push_issue(issues, x, Ghost(base), Ghost(got), Ghost(long[0]));
            proof {
                got = got.push(long[0]);
            }
        }
        assert(got =~= before + long);
        let ghost g1 = got;
        let ghost trailing = if self.config.check_trailing_whitespace && (text::ends_with(line@, " "@)
            || text::ends_with(line@, "\t"@)) {
            seq![
                (
                    n as nat,
                    sat(text::utf8_len(text::trim_end(line@))),
                    LintSeverity::Info,
                    "Trailing whitespace detected"@,
                    "no-trailing-whitespace"@,
                ),
            ]
        } else {
            Seq::<Issue>::empty()
        };
        if self.config.check_trailing_whitespace && (ends_with_str(line, " ") || ends_with_str(
            line,
            "\t",
        )) {
            let col = utf8_len_sat(trim_end_chars(line));
            let m = string_of(chars_of("Trailing whitespace detected").as_slice());
            let x = issue(n, col, LintSeverity::Info, m, "no-trailing-whitespace");
            push_issue(issues, x, Ghost(base), Ghost(got), Ghost(trailing[0]));
            proof {
                got = got.push(trailing[0]);
            }
        }
        assert(got =~= g1 + trailing);
        let ghost g2 = got;
        let ghost mixed = if self.config.check_mixed_indentation && text::starts_with(line@, " "@)
            && line@.contains('\t') {
            seq![
                (
                    n as nat,
                    0nat,
                    LintSeverity::Warning,
                    "Mixed spaces and tabs in indentation"@,
                    "no-mixed-indentation"@,
                ),
            ]
        } else {
            Seq::<Issue>::empty()
        };
        if self.config.check_mixed_indentation && starts_with_str(line, " ") && text::contains_char(
            line,
            '\t',
        ) {
            let m = string_of(chars_of("Mixed spaces and tabs in indentation").as_slice());
            let x = issue(n, 0, LintSeverity::Warning, m, "no-mixed-indentation");
            push_issue(issues, x, Ghost(base), Ghost(got), Ghost(mixed[0]));
            proof {
                got = got.push(mixed[0]);
            }
        }
        assert(got =~= g2 + mixed);
        let ghost g3 = got;
        let ghost delay = if self.config.check_suspicious_delays && delay_value(line@) is Some
            && delay_value(line@).unwrap() > self.config.suspicious_delay_threshold {
            seq![
                (
                    n as nat,
                    0nat,
                    LintSeverity::Warning,
                    "Suspicious delay value: "@ + numbers::decimal(delay_value(line@).unwrap())
                        + "ms (very long)"@,
                    "suspicious-delay"@,
                ),
            ]
        } else {
            Seq::<Issue>::empty()
        };
        if self.config.check_suspicious_delays {
            let t = trim_chars(line);
            if starts_with_str(t, "DELAY ") {
                proof {
                    reveal_strlit("DELAY ");
                }
                let d = trim_chars(&t[6..t.len()]);
                assert(d@ == text::trim(t@.skip(6)));
                match parse_unsigned_chars(d, 0xffff_ffff) {
                    Some(v) => {
                        if v > self.config.suspicious_delay_threshold as u64 {
                            let m = message_with_number(
                                "Suspicious delay value: ",
                                v,
                                "ms (very long)",
                            );
                            let x = issue(n, 0, LintSeverity::Warning, m, "suspicious-delay");
                            push_issue(issues, x, Ghost(base), Ghost(got), Ghost(delay[0]));
                            proof {
                                got = got.push(delay[0]);
                            }
                        }
                    },
                    None => {},
                }
            }
        }
        assert(got =~= g3 + delay);
        assert(before + want =~= before + long + trailing + mixed + delay);
    }

    /// The issues of the program: over-long lines, trailing whitespace,
    /// mixed indentation and very long delays, as configured, then a missing
    /// final newline; none when the linter is disabled. Lines are numbered
    /// from 1 and lengths counted in bytes.
    pub fn lint(&self, source: &str) -> (r: Vec<LintIssue>)
        ensures
            r@.len() == lint_issues(self.config_view(), source@).len(),
            forall|k: int|
                0 <= k < r@.len() ==> issue_is(
                    #[trigger] r@[k],
                    lint_issues(self.config_view(), source@)[k],
                ),
    {
        let mut issues: Vec<LintIssue> = Vec::new();
        if !self.config.enabled {
            return issues;
        }
        let src = chars_of(source);
        let lines = split_lines(src.as_slice());
        let ghost ls = text::view_all(lines@);
        let ghost base = issues@;
        let ghost mut got: Seq<Issue> = Seq::empty();
        let mut i: usize = 0;
        assert(ls.skip(0) =~= ls);
        assert(issues_agree(issues@, base, got)) by {
            assert(issues@.take(0) =~= base);
        }
        while i < lines.len()
            invariant
                i <= lines@.len(),
                ls == text::view_all(lines@),
                base.len() == 0,
                issues_agree(issues@, base, got),
                got + lines_issues(self.config, ls.skip(i as int), (i + 1) as nat) == lines_issues(
                    self.config,
                    ls,
                    1,
                ),
            decreases lines@.len() - i,
        {
            assert(ls.skip(i as int)[0] == lines@[i as int]@);
            assert(ls.skip(i as int).drop_first() =~= ls.skip(i + 1));
            let ghost li = line_issues(self.config, lines@[i as int]@, (i + 1) as nat);
            self.lint_line(lines[i].as_slice(), i + 1, &mut issues, Ghost(base), Ghost(got));
            proof {
                assert(got + li + lines_issues(self.config, ls.skip(i + 1), (i + 2) as nat) =~= got
                    + (li + lines_issues(self.config, ls.skip(i + 1), (i + 2) as nat)));
                got = got + li;
            }
            i = i + 1;
        }
        assert(ls.skip(i as int) =~= Seq::<Seq<char>>::empty());
        assert(got + Seq::<Issue>::empty() =~= got);
        proof {
            reveal_strlit("\n");
        }
        if self.config.require_final_newline && !ends_with_str(src.as_slice(), "\n") {
            let n = lines.len();
            let col = if n > 0 {
                assert(ls.last() == lines@[n - 1]@);
                utf8_len_sat(lines[n - 1].as_slice())
            } else {
                0
            };
            let m = string_of(chars_of("File should end with a newline").as_slice());
            let x = issue(n, col, LintSeverity::Info, m, "final-newline");
            let ghost fin = (
                ls.len(),
                if ls.len() > 0 {
                    sat(text::utf8_len(ls.last()))
                } else {
                    0
                },
                LintSeverity::Info,
                "File should end with a newline"@,
                "final-newline"@,
            );
            push_issue(&mut issues, x, Ghost(base), Ghost(got), Ghost(fin));
            proof {
                got = got.push(fin);
            }
        }
        proof {
            assert forall|k: int| 0 <= k < issues@.len() implies issue_is(
                #[trigger] issues@[k],
                lint_issues(self.config, source@)[k],
            ) by {
                assert(issues@[k] == issues@[base.len() + k]);
            }
        }
        issues
    }
}

/// How a severity is shown.
pub fn severity_label(s: LintSeverity) -> (r: &'static str)
    ensures
        r@ == (match s {
            LintSeverity::Error => "ERROR"@,
            LintSeverity::Warning => "WARN"@,
            LintSeverity::Info => "INFO"@,
        }),
{
    match s {
        LintSeverity::Error => "ERROR",
        LintSeverity::Warning => "WARN",
        LintSeverity::Info => "INFO",
    }
}

/// The number of the issues of severity `s`.
pub open spec fn severity_count(issues: Seq<LintIssue>, s: LintSeverity) -> nat
    decreases issues.len(),
{
    if issues.len() == 0 {
        0
    } else {
        severity_count(issues.drop_last(), s) + if issues.last().severity == s {
            1nat
        } else {
            0nat
        }
    }
}

/// How many of the issues have severity `s`.
pub fn count_severity(issues: &[LintIssue], s: LintSeverity) -> (r: usize)
    ensures
        r == severity_count(issues@, s),
{
    let mut n: usize = 0;
    let mut i: usize = 0;
    assert(issues@.take(0) =~= Seq::<LintIssue>::empty());
    while i < issues.len()
        invariant
            i <= issues@.len(),
            n == severity_count(issues@.take(i as int), s),
            n <= i,
        decreases issues@.len() - i,
    {
        assert(issues@.take(i + 1).drop_last() =~= issues@.take(i as int));
        if issues[i].severity == s {
            n = n + 1;
        }
        i = i + 1;
    }
    assert(issues@.take(i as int) =~= issues@);
    n
}

/// The issues are those of `base`, then one per issue value of `got`.
pub open spec fn issues_agree(xs: Seq<LintIssue>, base: Seq<LintIssue>, got: Seq<Issue>) -> bool {
    &&& xs.len() == base.len() + got.len()
    &&& xs.take(base.len() as int) == base
    &&& forall|k: int| 0 <= k < got.len() ==> issue_is(#[trigger] xs[base.len() + k], got[k])
}

/// Appends an issue.
fn push_issue(
    issues: &mut Vec<LintIssue>,
    x: LintIssue,
    Ghost(base): Ghost<Seq<LintIssue>>,
    Ghost(got): Ghost<Seq<Issue>>,
    Ghost(i): Ghost<Issue>,
)
    requires
        issues_agree(old(issues)@, base, got),
        issue_is(x, i),
    ensures
        issues_agree(final(issues)@, base, got.push(i)),
{
    issues.push(x);
    assert(issues@.take(base.len() as int) =~= old(issues)@.take(base.len() as int));
    assert forall|k: int| 0 <= k < got.push(i).len() implies issue_is(
        #[trigger] issues@[base.len() + k],
        got.push(i)[k],
    ) by {
        if k < got.len() {
            assert(issues@[base.len() + k] == old(issues)@[base.len() + k]);
        }
    }
}

} // verus!
