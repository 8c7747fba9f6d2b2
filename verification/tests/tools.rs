use ducky_core::formatter::{DuckyFormatter, FormatterConfig};
use ducky_core::linter::{DuckyLinter, LintSeverity, LinterConfig};

fn formatter(use_tabs: bool) -> DuckyFormatter {
    let mut c = FormatterConfig::default();
    c.enabled = true;
    c.use_tabs = use_tabs;
    DuckyFormatter::new(c)
}

#[test]
fn format_indents_blocks() {
    let f = formatter(false);
    assert_eq!(
        f.format("IF $a THEN\nSTRING a\n   END_IF"),
        "IF $a THEN\n    STRING a\nEND_IF\n"
    );
}

#[test]
fn format_with_tabs_and_else() {
    let f = formatter(true);
    assert_eq!(
        f.format("WHILE TRUE\nIF $a THEN\nSTRING a\nELSE\nSTRING b\nEND_IF\nEND_WHILE\n"),
        "WHILE TRUE\n\tIF $a THEN\n\t\tSTRING a\n\tELSE\n\t\tSTRING b\n\tEND_IF\nEND_WHILE\n"
    );
}

#[test]
fn format_keeps_blank_lines_empty() {
    let f = formatter(false);
    assert_eq!(f.format("STRING a  \n   \nSTRING b"), "STRING a\n\nSTRING b\n");
}

#[test]
fn format_disabled_is_identity() {
    let f = DuckyFormatter::new(FormatterConfig::default());
    assert_eq!(f.format("  messy  \n"), "  messy  \n");
}

#[test]
fn law_format_twice_on_values() {
    let f = formatter(false);
    let once = f.format("IF $a THEN\n  STRING a  \nEND_IF");
    assert_eq!(f.format(&once), once);
}

#[test]
fn law_format_tidies_lines_on_values() {
    let f = formatter(true);
    let out = f.format("  IF $a THEN \n   STRING a\t\n\n END_IF   ");
    assert_eq!(out, "IF $a THEN\n\tSTRING a\n\nEND_IF\n");
    for line in out.lines() {
        assert!(line.is_empty() || !line.ends_with(char::is_whitespace));
        assert!(line.trim_start_matches('\t').chars().next().map_or(true, |c| !c.is_whitespace()));
    }
    assert!(out.ends_with('\n'));
    assert_eq!(formatter(false).format(""), "\n");
}

fn linter() -> DuckyLinter {
    let mut c = LinterConfig::default();
    c.enabled = true;
    c.check_suspicious_delays = true;
    c.require_final_newline = true;
    c.max_line_length = 10;
    DuckyLinter::new(c)
}

#[test]
fn lint_reports_each_rule() {
    let issues = linter().lint("STRING abcdefgh\nDELAY 20000\n \tSTRING a\nSTRING b ");
    let rules: Vec<&str> = issues.iter().map(|i| i.rule.as_str()).collect();
    assert_eq!(
        rules,
        vec![
            "max-line-length",
            "max-line-length",
            "suspicious-delay",
            "no-mixed-indentation",
            "no-trailing-whitespace",
            "final-newline"
        ]
    );
    assert_eq!(issues[0].line, 1);
    assert_eq!(issues[0].column, 10);
    assert_eq!(issues[0].message, "Line exceeds maximum length of 10 characters");
    assert_eq!(issues[2].message, "Suspicious delay value: 20000ms (very long)");
    assert_eq!(issues[2].severity, LintSeverity::Warning);
    assert_eq!(issues[4].line, 4);
    assert_eq!(issues[4].column, 8);
    assert_eq!(issues[4].severity, LintSeverity::Info);
    assert_eq!(issues[5].line, 4);
    assert_eq!(issues[5].column, 9);
}

#[test]
fn lint_disabled_reports_nothing() {
    let l = DuckyLinter::new(LinterConfig::default());
    assert!(l.lint("x \t\n").is_empty());
}

#[test]
fn law_lint_lines_within_program() {
    let src = "a \nb\t\nc";
    let n = src.lines().count();
    for issue in linter().lint(src) {
        assert!(issue.line <= n);
    }
}

#[test]
fn trailing_whitespace_check_can_be_switched_off() {
    let mut c = LinterConfig::default();
    c.enabled = true;
    c.check_trailing_whitespace = false;
    let issues = DuckyLinter::new(c).lint("STRING a\t\nSTRING b \n");
    assert!(issues.iter().all(|i| i.rule != "no-trailing-whitespace"));
}

#[test]
fn trailing_space_or_tab_gives_one_info_issue() {
    let mut c = LinterConfig::default();
    c.enabled = true;
    c.check_trailing_whitespace = true;
    let issues = DuckyLinter::new(c).lint("STRING a\t\nSTRING b \nSTRING c\n");
    let trailing: Vec<_> = issues.iter().filter(|i| i.rule == "no-trailing-whitespace").collect();
    assert_eq!(trailing.len(), 2);
    assert_eq!(trailing[0].line, 1);
    assert_eq!(trailing[1].line, 2);
    assert!(trailing.iter().all(|i| i.severity == LintSeverity::Info));
}
