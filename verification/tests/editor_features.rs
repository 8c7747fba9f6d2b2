use ducky_core::code_actions::{
    get_code_actions, get_diagnostic_fixes, CodeActionKind, Diagnostic, DiagnosticSeverity, NumberOrString,
};
use ducky_core::completions::{
    get_keyword_completions, get_modifier_completions, get_reserved_variable_completions,
    get_special_key_completions, CompletionItemKind,
};
use ducky_core::folding_range::{get_folding_ranges, FoldingRangeKind};
use ducky_core::on_type_formatting::{get_on_type_formatting, FormattingOptions};
use ducky_core::semantic_tokens::{
    generate_semantic_tokens, semantic_token_modifiers_legend, semantic_token_types_legend,
    token_type_to_semantic, SemanticToken, SemanticTokenModifier, SemanticTokenType,
};
use ducky_core::lexer::TokenType;
use ducky_core::text_edit::{Position, Range};
use ducky_core::document_formatting::format_document;
use ducky_core::hover::{get_hover_info, get_variable_hover};
use ducky_core::code_lens::get_code_lenses;
use ducky_core::compiler::DuckyCompiler;
use ducky_core::diagnostics::compiler_to_diagnostics;
use ducky_core::errors::{CompilerError, CompilerWarning};
use ducky_core::document_symbol::{get_document_symbols, SymbolKind};
use ducky_core::call_hierarchy::{get_incoming_calls, get_outgoing_calls, prepare_call_hierarchy};
use ducky_core::definition::find_definition;
use ducky_core::document_highlight::{get_document_highlights, DocumentHighlightKind};
use ducky_core::references::find_references;
use ducky_core::rename::{prepare_rename, rename_symbol};
use ducky_core::linked_editing::get_linked_editing_ranges;
use ducky_core::selection_range::{get_selection_ranges, SelectionRange};
use ducky_core::range_formatting::format_range;
use ducky_core::signature_help::get_signature_help;
use ducky_core::inlay_hints::delay_hints;
use ducky_core::server::{completion_response, hover_response};

fn toks(v: &[SemanticToken]) -> Vec<(u32, u32, u32, u32, u32)> {
    v.iter()
        .map(|t| (t.delta_line, t.delta_start, t.length, t.token_type, t.token_modifiers_bitset))
        .collect()
}

#[test]
fn semantic_tokens_mark_commands_and_numbers() {
    let t = generate_semantic_tokens("STRING hello\nDELAY 100\n");
    assert_eq!(toks(&t), vec![(0, 0, 6, 0, 1), (1, 0, 5, 0, 0), (0, 6, 3, 4, 0)]);
}

#[test]
fn semantic_tokens_mark_variables_operators_and_booleans() {
    let t = generate_semantic_tokens("VAR $x = TRUE");
    assert_eq!(
        toks(&t),
        vec![(0, 0, 3, 2, 1), (0, 4, 2, 2, 0), (0, 3, 1, 7, 0), (0, 2, 4, 9, 0)]
    );
}

#[test]
fn semantic_tokens_skip_blank_lines_and_keep_line_deltas() {
    let t = generate_semantic_tokens("ENTER\n\n   ENTER");
    assert_eq!(toks(&t), vec![(0, 0, 5, 0, 0), (2, 3, 5, 0, 0)]);
}

#[test]
fn semantic_tokens_colour_comment_blocks_whole() {
    let t = generate_semantic_tokens("REM_BLOCK\nsome text\nEND_REM\nREM hi");
    assert_eq!(
        toks(&t),
        vec![(0, 0, 9, 5, 0), (1, 0, 9, 5, 0), (1, 0, 7, 5, 0), (1, 0, 6, 5, 0)]
    );
}

#[test]
fn semantic_tokens_constants_and_words_inside_names() {
    // A digit after a letter is no number; TRUE inside a longer word is no boolean.
    let t = generate_semantic_tokens("DEFINE #MAX x1 TRUEX");
    assert_eq!(toks(&t), vec![(0, 0, 6, 6, 0), (0, 7, 4, 8, 0)]);
}

#[test]
fn semantic_classes_and_legends() {
    let (k, m) = token_type_to_semantic(&TokenType::Attackmode);
    assert_eq!(k, SemanticTokenType::Keyword);
    assert_eq!(m, vec![SemanticTokenModifier::Modification]);
    let (k, m) = token_type_to_semantic(&TokenType::RandomChar);
    assert_eq!(k, SemanticTokenType::Function);
    assert_eq!(m, vec![SemanticTokenModifier::Static]);
    assert_eq!(semantic_token_types_legend().len(), 12);
    assert_eq!(semantic_token_types_legend()[9], SemanticTokenType::Boolean);
    assert_eq!(semantic_token_modifiers_legend()[4], SemanticTokenModifier::Modification);
    // The modification modifier is bit 4 of the set.
    let t = generate_semantic_tokens("INJECT_MOD GUI");
    assert_eq!(t[0].token_modifiers_bitset, 16);
}

#[test]
fn folding_ranges_of_blocks() {
    let r = get_folding_ranges("IF $a THEN\nSTRING x\nEND_IF\nREM_BLOCK\nx\nEND_REM\nWHILE TRUE\n");
    let v: Vec<(u32, u32, FoldingRangeKind, String)> = r
        .iter()
        .map(|f| (f.start_line, f.end_line, f.kind, f.collapsed_text.clone()))
        .collect();
    assert_eq!(
        v,
        vec![
            (0, 2, FoldingRangeKind::Region, "if...".to_string()),
            (3, 5, FoldingRangeKind::Comment, "/* ... */".to_string()),
        ]
    );
}

#[test]
fn folding_resumes_after_the_closing_line() {
    // The inner IF is inside the first range, so it is not folded on its own.
    let r = get_folding_ranges("IF $a THEN\nIF $b THEN\nEND_IF\nEND_IF\nFUNCTION f()\nEND_FUNCTION");
    let v: Vec<(u32, u32)> = r.iter().map(|f| (f.start_line, f.end_line)).collect();
    assert_eq!(v, vec![(0, 2), (4, 5)]);
    assert_eq!(r[1].collapsed_text, "function...");
}

fn spaces(n: u32) -> FormattingOptions {
    FormattingOptions { tab_size: n, insert_spaces: true }
}

fn one_edit(content: &str, line: u32, options: FormattingOptions) -> Option<String> {
    let pos = Position { line, character: 0 };
    let e = get_on_type_formatting(content, pos, "\n", &options);
    assert!(e.len() <= 1);
    e.first().map(|e| {
        assert_eq!(e.range, Range { start: pos, end: pos });
        e.new_text.clone()
    })
}

#[test]
fn on_type_closes_an_open_block() {
    assert_eq!(one_edit("IF $a THEN\n", 1, spaces(4)), Some("    \nEND_IF".to_string()));
    assert_eq!(
        one_edit("  WHILE TRUE\n", 1, spaces(2)),
        Some("    \n  END_WHILE".to_string())
    );
    assert_eq!(one_edit("STRING\n", 1, spaces(4)), Some("    \nEND_STRING".to_string()));
}

#[test]
fn on_type_only_indents_a_closed_block() {
    assert_eq!(one_edit("IF $a THEN\n\nEND_IF", 1, spaces(4)), Some("    ".to_string()));
    assert_eq!(
        one_edit("FUNCTION f()\n\nEND_FUNCTION", 1, FormattingOptions { tab_size: 4, insert_spaces: false }),
        Some("\t".to_string())
    );
}

#[test]
fn on_type_keeps_indentation_of_other_lines() {
    assert_eq!(one_edit("    STRING x\n", 1, spaces(4)), Some("    ".to_string()));
    assert_eq!(one_edit("\tSTRING x\n", 1, FormattingOptions { tab_size: 4, insert_spaces: false }), Some("\t".to_string()));
    assert_eq!(one_edit("STRING x\n", 1, spaces(4)), None);
    assert_eq!(one_edit("STRING x\n", 0, spaces(4)), None);
    assert_eq!(one_edit("STRING x\n", 5, spaces(4)), None);
    let e = get_on_type_formatting("IF $a THEN\n", Position { line: 1, character: 0 }, "x", &spaces(4));
    assert!(e.is_empty());
}

fn diagnostic(code: Option<NumberOrString>, message: &str, start: u32, end: u32) -> Diagnostic {
    Diagnostic {
        range: Range {
            start: Position { line: start, character: 0 },
            end: Position { line: end, character: 10 },
        },
        severity: Some(DiagnosticSeverity::Warning),
        code,
        source: Some("ducky-lint".to_string()),
        message: message.to_string(),
    }
}

#[test]
fn warning_fix_adds_an_ignore_comment() {
    let d = diagnostic(Some(NumberOrString::String("W001".to_string())), "x", 1, 1);
    let a = get_diagnostic_fixes("STRING a\n  DELAY 1\n", &d, "file:///a.txt");
    assert_eq!(a.len(), 1);
    assert_eq!(a[0].title, "Suppress warning W001");
    assert_eq!(a[0].kind, Some(CodeActionKind::QuickFix));
    assert_eq!(a[0].diagnostics.as_ref().unwrap().len(), 1);
    let w = a[0].edit.as_ref().unwrap();
    assert_eq!(w.uri, "file:///a.txt");
    assert_eq!(w.edits.len(), 1);
    assert_eq!(w.edits[0].new_text, "  REM ducky-ignore-next-line W001\n");
    assert_eq!(w.edits[0].range.start, Position { line: 1, character: 0 });
}

#[test]
fn missing_end_fix_adds_the_closing_line() {
    let d = diagnostic(Some(NumberOrString::String("E100".to_string())), "Missing END_WHILE", 0, 3);
    let a = get_diagnostic_fixes("WHILE TRUE\n", &d, "u");
    assert_eq!(a.len(), 1);
    assert_eq!(a[0].title, "Add missing END_WHILE");
    let w = a[0].edit.as_ref().unwrap();
    assert_eq!(w.edits[0].new_text, "END_WHILE\n");
    assert_eq!(w.edits[0].range.start, Position { line: 4, character: 0 });
}

#[test]
fn other_diagnostics_have_no_fix() {
    let d = diagnostic(Some(NumberOrString::Number(100)), "Missing END_IF", 0, 0);
    assert!(get_diagnostic_fixes("IF\n", &d, "u").is_empty());
    let d = diagnostic(Some(NumberOrString::String("E101".to_string())), "Missing END_IF", 0, 0);
    assert!(get_diagnostic_fixes("IF\n", &d, "u").is_empty());
    let d = diagnostic(None, "W", 0, 0);
    assert!(get_diagnostic_fixes("IF\n", &d, "u").is_empty());
}

#[test]
fn completion_lists() {
    let k = get_keyword_completions();
    assert_eq!(k.len(), 58);
    assert_eq!(k[0].label, "STRING");
    assert_eq!(k[0].kind, Some(CompletionItemKind::Keyword));
    assert_eq!(k[0].detail.as_deref(), Some("Type a string of characters"));
    assert_eq!(get_modifier_completions().len(), 8);
    let s = get_special_key_completions();
    assert_eq!(s.len(), 56);
    assert_eq!(s[0].label, "F1");
    assert_eq!(s[11].label, "F12");
    assert_eq!(s[11].detail.as_deref(), Some("Function key F12"));
    assert_eq!(s[12].label, "ESCAPE");
    let r = get_reserved_variable_completions();
    assert_eq!(r.len(), 11);
    assert_eq!(r[0].label, "$_HOST_OS");
    assert_eq!(r[0].kind, Some(CompletionItemKind::Variable));
}

#[test]
fn document_formatting_reindents_changed_lines() {
    let e = format_document("IF $a THEN\nSTRING x\n  END_IF\n\nENTER", &spaces(2));
    let v: Vec<(u32, u32, u32, String)> = e
        .iter()
        .map(|e| (e.range.start.line, e.range.start.character, e.range.end.character, e.new_text.clone()))
        .collect();
    assert_eq!(
        v,
        vec![(1, 0, 8, "  STRING x".to_string()), (2, 0, 8, "END_IF".to_string())]
    );
    assert!(format_document("ENTER\n", &spaces(4)).is_empty());
}

#[test]
fn hover_documents_commands_and_variables() {
    let h = get_hover_info("  DELAY 100", Position { line: 0, character: 0 }).unwrap();
    assert_eq!(h.markdown, "**DELAY** - Wait for specified milliseconds\n\nExample: `DELAY 1000`");
    assert!(get_hover_info("ALT", Position { line: 0, character: 0 }).is_none());
    let v = get_variable_hover("$_CAPSLOCK_ON").unwrap();
    assert_eq!(v.markdown, "**$_CAPSLOCK_ON** - CAPS LOCK state\n\nValues: `TRUE`, `FALSE`");
    assert!(get_variable_hover("$_RANDOM_INT").is_none());
}

#[test]
fn code_lenses_for_compile_and_functions() {
    let l = get_code_lenses("FUNCTION greet()\nEND_FUNCTION\n  FUNCTION ()", "file:///p.txt");
    assert_eq!(l.len(), 2);
    let c = l[0].command.as_ref().unwrap();
    assert_eq!(c.title, "▶ Compile DuckyScript");
    assert_eq!(c.command, "duckyscript.compile");
    assert_eq!(c.arguments, vec!["file:///p.txt".to_string()]);
    let f = l[1].command.as_ref().unwrap();
    assert_eq!(f.title, "▶ Call greet()");
    assert_eq!(f.command, "duckyscript.runFunction");
    assert_eq!(f.arguments, vec!["file:///p.txt".to_string(), "greet".to_string()]);
    assert_eq!(l[1].range.end, Position { line: 0, character: 16 });
    assert!(get_code_lenses("  \n ", "u").is_empty());
}

#[test]
fn compiler_results_become_diagnostics() {
    let mut c = DuckyCompiler::new(None);
    c.current_line_index = 3;
    c.errors.push(CompilerError::EmptyExpression { line: 3 });
    c.warnings.push(CompilerWarning::UnusedVariable { line: 5, name: "$x".to_string() });
    let d = compiler_to_diagnostics(&c, "u");
    assert_eq!(d.len(), 2);
    assert_eq!(d[0].message, "Empty expression");
    assert_eq!(d[0].severity, Some(DiagnosticSeverity::Error));
    assert_eq!(d[0].range.start, Position { line: 3, character: 0 });
    assert_eq!(d[0].range.end, Position { line: 3, character: u32::MAX });
    assert_eq!(d[0].source.as_deref(), Some("ducky-compiler"));
    assert_eq!(d[1].message, "Unused variable: $x");
    assert_eq!(d[1].severity, Some(DiagnosticSeverity::Warning));
    assert_eq!(d[1].range.start.line, 4);
}

#[test]
fn document_symbols_outline() {
    let s = get_document_symbols("VAR $count = 1\nFUNCTION go()\nSTRING x\nEND_FUNCTION\nDEFINE #MAX 5\n$count = 2");
    let v: Vec<(String, SymbolKind, u32, u32, u32, u32)> = s
        .iter()
        .map(|s| {
            (
                s.name.clone(),
                s.kind,
                s.range.start.line,
                s.range.end.line,
                s.selection_range.start.character,
                s.selection_range.end.character,
            )
        })
        .collect();
    assert_eq!(
        v,
        vec![
            ("$count".to_string(), SymbolKind::Variable, 0, 0, 4, 10),
            ("go".to_string(), SymbolKind::Function, 1, 3, 9, 11),
            ("#MAX".to_string(), SymbolKind::Constant, 4, 4, 7, 11),
            ("$count".to_string(), SymbolKind::Variable, 5, 5, 0, 6),
        ]
    );
    assert_eq!(s[1].range.end.character, 12);
    assert_eq!(s[1].detail.as_deref(), Some("Function"));
}


const CALLS: &str = "FUNCTION a ()\nb\nEND_FUNCTION\nFUNCTION b ()\nSTRING x\nEND_FUNCTION\na";

#[test]
fn call_hierarchy_prepares_items() {
    let v = prepare_call_hierarchy(CALLS, Position { line: 6, character: 0 }, "u").unwrap();
    assert_eq!(v.len(), 1);
    assert_eq!(v[0].name, "a");
    assert_eq!(v[0].detail.as_deref(), Some("DuckyScript Function"));
    assert_eq!(v[0].range.start, Position { line: 0, character: 0 });
    assert_eq!(v[0].range.end, Position { line: 3, character: 0 });
    assert_eq!(v[0].selection_range.start, Position { line: 0, character: 9 });
    assert_eq!(v[0].selection_range.end, Position { line: 0, character: 10 });
    let w = prepare_call_hierarchy(CALLS, Position { line: 3, character: 0 }, "u").unwrap();
    assert_eq!(w[0].name, "b");
    assert_eq!(w[0].range.end.line, 6);
    assert!(prepare_call_hierarchy(CALLS, Position { line: 4, character: 0 }, "u").is_none());
    assert!(prepare_call_hierarchy(CALLS, Position { line: 9, character: 0 }, "u").is_none());
}

#[test]
fn call_hierarchy_incoming_and_outgoing() {
    let b = prepare_call_hierarchy(CALLS, Position { line: 3, character: 0 }, "u").unwrap().remove(0);
    let inc = get_incoming_calls(CALLS, &b, "u");
    assert_eq!(inc.len(), 1);
    assert_eq!(inc[0].from.name, "a");
    assert_eq!(inc[0].from_ranges, vec![Range { start: Position { line: 1, character: 0 }, end: Position { line: 1, character: 1 } }]);
    let a = prepare_call_hierarchy(CALLS, Position { line: 0, character: 0 }, "u").unwrap().remove(0);
    let out = get_outgoing_calls(CALLS, &a, "u");
    assert_eq!(out.len(), 1);
    assert_eq!(out[0].to.name, "b");
    assert_eq!(out[0].to.range.start.line, 3);
    assert_eq!(out[0].from_ranges[0].start.line, 1);
    assert!(get_outgoing_calls(CALLS, &b, "u").is_empty());
}


const VARS: &str = "VAR $x = 1\nSTRING $x\n$xy = $x + 2";

fn span(line: u32, a: u32, b: u32) -> Range {
    Range { start: Position { line, character: a }, end: Position { line, character: b } }
}

#[test]
fn references_are_whole_words() {
    let at = Position { line: 1, character: 8 };
    let all: Vec<Range> = find_references(VARS, at, true, "u").iter().map(|l| l.range).collect();
    assert_eq!(all, vec![span(0, 4, 6), span(1, 7, 9), span(2, 6, 8)]);
    let uses: Vec<Range> = find_references(VARS, at, false, "u").iter().map(|l| l.range).collect();
    assert_eq!(uses, vec![span(1, 7, 9), span(2, 6, 8)]);
    // Just after a word the cursor still picks that word up.
    let after: Vec<Range> = find_references(VARS, Position { line: 1, character: 6 }, true, "u")
        .iter()
        .map(|l| l.range)
        .collect();
    assert_eq!(after, vec![span(1, 0, 6)]);
    assert!(find_references(VARS, Position { line: 9, character: 0 }, true, "u").is_empty());
    assert_eq!(find_references(VARS, at, true, "file:///x")[0].uri, "file:///x");
}

#[test]
fn highlights_mark_writes_and_reads() {
    let h: Vec<(Range, Option<DocumentHighlightKind>)> = get_document_highlights(VARS, Position { line: 1, character: 8 })
        .iter()
        .map(|h| (h.range, h.kind))
        .collect();
    assert_eq!(
        h,
        vec![
            (span(0, 4, 6), Some(DocumentHighlightKind::Write)),
            (span(1, 7, 9), Some(DocumentHighlightKind::Read)),
            (span(2, 6, 8), Some(DocumentHighlightKind::Write)),
        ]
    );
}

#[test]
fn rename_changes_every_reference() {
    assert_eq!(prepare_rename(VARS, Position { line: 1, character: 8 }), Some(span(1, 7, 9)));
    assert_eq!(prepare_rename(VARS, Position { line: 1, character: 2 }), None);
    let w = rename_symbol(VARS, Position { line: 1, character: 8 }, "$y", "u").unwrap();
    assert_eq!(w.uri, "u");
    let e: Vec<(Range, String)> = w.edits.iter().map(|e| (e.range, e.new_text.clone())).collect();
    assert_eq!(
        e,
        vec![
            (span(0, 4, 6), "$y".to_string()),
            (span(1, 7, 9), "$y".to_string()),
            (span(2, 6, 8), "$y".to_string()),
        ]
    );
    assert!(rename_symbol(VARS, Position { line: 7, character: 0 }, "$y", "u").is_none());
}

#[test]
fn definitions_of_variables_functions_and_constants() {
    let v = find_definition(VARS, Position { line: 1, character: 8 }, "u").unwrap();
    assert_eq!(v.range, span(0, 4, 6));
    let f = find_definition("FUNCTION go()\nEND_FUNCTION\ngo()", Position { line: 2, character: 0 }, "u").unwrap();
    assert_eq!(f.range, span(0, 9, 11));
    let d = find_definition("DEFINE #A 1\nDEFINE #B #A", Position { line: 1, character: 11 }, "u").unwrap();
    assert_eq!(d.range, span(0, 7, 9));
    assert!(find_definition(VARS, Position { line: 1, character: 2 }, "u").is_none());
}


#[test]
fn linked_editing_pairs_block_keywords() {
    let c = "IF $a THEN\nIF $b THEN\nEND_IF\nEND_IF";
    let l = get_linked_editing_ranges(c, Position { line: 0, character: 0 }).unwrap();
    assert_eq!(l.ranges, vec![span(0, 0, 2), span(3, 0, 6)]);
    assert!(l.word_pattern.is_none());
    let r = get_linked_editing_ranges(c, Position { line: 2, character: 0 }).unwrap();
    assert_eq!(r.ranges, vec![span(1, 0, 2), span(2, 0, 6)]);
    let f = "FUNCTION go()\nSTRING x\nEND_FUNCTION";
    let a = get_linked_editing_ranges(f, Position { line: 0, character: 0 }).unwrap();
    assert_eq!(a.ranges, vec![span(0, 9, 13)]);
    assert_eq!(a.word_pattern.as_deref(), Some("go()"));
    let b = get_linked_editing_ranges(f, Position { line: 2, character: 0 }).unwrap();
    assert_eq!(b.ranges, vec![span(0, 9, 13)]);
    let s = get_linked_editing_ranges("STRING\nabc\nEND_STRING", Position { line: 2, character: 0 }).unwrap();
    assert_eq!(s.ranges, vec![span(0, 0, 6), span(2, 0, 10)]);
    assert!(get_linked_editing_ranges(f, Position { line: 1, character: 0 }).is_none());
    assert!(get_linked_editing_ranges("IF $a THEN", Position { line: 0, character: 0 }).is_none());
}


fn flatten(s: &SelectionRange) -> Vec<Range> {
    let mut v = vec![s.range];
    let mut cur = &s.parent;
    while let Some(p) = cur {
        v.push(p.range);
        cur = &p.parent;
    }
    v
}

#[test]
fn selection_grows_from_word_to_document() {
    let c = "IF $a THEN\n  STRING $name\nEND_IF";
    let r = get_selection_ranges(c, vec![Position { line: 1, character: 10 }, Position { line: 5, character: 0 }]);
    assert_eq!(r.len(), 2);
    assert_eq!(
        flatten(&r[0]),
        vec![
            span(1, 9, 14),
            span(1, 2, 14),
            Range { start: Position { line: 0, character: 0 }, end: Position { line: 3, character: 0 } },
            Range { start: Position { line: 0, character: 0 }, end: Position { line: 3, character: 0 } },
        ]
    );
    assert_eq!(
        flatten(&r[1]),
        vec![Range { start: Position { line: 0, character: 0 }, end: Position { line: 3, character: 0 } }]
    );
}


#[test]
fn range_formatting_reindents_the_selection() {
    let c = "IF $a THEN\nSTRING x\nEND_IF";
    let e = format_range(c, Range { start: Position { line: 1, character: 0 }, end: Position { line: 1, character: 100 } }, &spaces(4));
    let v: Vec<(Range, String)> = e.iter().map(|e| (e.range, e.new_text.clone())).collect();
    assert_eq!(v, vec![(span(1, 0, 8), "    STRING x".to_string())]);
    let p = format_range(c, span(1, 2, 5), &spaces(4));
    let v: Vec<(Range, String)> = p.iter().map(|e| (e.range, e.new_text.clone())).collect();
    assert_eq!(v, vec![(span(1, 2, 5), "RIN".to_string())]);
    assert!(format_range(c, span(0, 0, 10), &spaces(4)).is_empty());
}

#[test]
fn signature_help_for_calls_and_commands() {
    let c = "FUNCTION greet(name)\ngreet(";
    let h = get_signature_help(c, Position { line: 1, character: 6 }).unwrap();
    assert_eq!(h.signatures.len(), 1);
    assert_eq!(h.signatures[0].label, "greet(name)");
    assert_eq!(h.signatures[0].documentation.as_deref(), Some("User-defined function: greet"));
    assert!(h.signatures[0].parameters.is_none());
    assert_eq!(h.active_signature, Some(0));
    let d = get_signature_help("DELAY 10", Position { line: 0, character: 8 }).unwrap();
    assert_eq!(d.signatures[0].label, "DELAY milliseconds");
    assert_eq!(d.signatures[0].parameters.as_ref().unwrap()[0].label, "milliseconds");
    assert!(get_signature_help("DELAY 10", Position { line: 0, character: 3 }).is_none());
    let s = get_signature_help("STRINGLN hi", Position { line: 0, character: 11 }).unwrap();
    assert_eq!(s.signatures[0].label, "STRING text");
}


#[test]
fn code_actions_fixes_refactorings_and_sources() {
    let c = "VAR $x = 1\nSTRING $x\nDEFINE #A 1";
    let w = diagnostic(Some(NumberOrString::String("W002".to_string())), "unused", 0, 0);
    let e = diagnostic(Some(NumberOrString::String("E100".to_string())), "Missing END_IF", 5, 5);
    let a = get_code_actions(c, span(0, 0, 0).into_lines(1), vec![w, e], "u");
    let titles: Vec<String> = a.iter().map(|a| a.title.clone()).collect();
    assert_eq!(
        titles,
        vec![
            "Suppress warning W002".to_string(),
            "Extract to FUNCTION".to_string(),
            "Inline variable".to_string(),
            "Remove 1 unused variable(s)".to_string(),
            "Sort DEFINE statements".to_string(),
        ]
    );
    let ex = a[1].edit.as_ref().unwrap();
    assert_eq!(ex.edits[0].new_text, "FUNCTION extracted_function\nVAR $x = 1\nSTRING $x\nEND_FUNCTION\n\n");
    assert_eq!(ex.edits[1].new_text, "extracted_function");
    assert_eq!(a[1].kind, Some(CodeActionKind::RefactorExtract));
    assert!(a[2].edit.is_none());
    let rm = a[3].edit.as_ref().unwrap();
    assert_eq!(rm.edits.len(), 1);
    assert_eq!(rm.edits[0].range, Range { start: Position { line: 0, character: 0 }, end: Position { line: 1, character: 0 } });
    assert_eq!(rm.edits[0].new_text, "");
    assert_eq!(a[4].kind, Some(CodeActionKind::SourceOrganizeImports));
}

trait IntoLines {
    fn into_lines(self, end: u32) -> Range;
}

impl IntoLines for Range {
    fn into_lines(self, end: u32) -> Range {
        Range { start: self.start, end: Position { line: end, character: 0 } }
    }
}


#[test]
fn delay_hints_within_the_range() {
    let c = "DELAY 1500\nSTRING x\n  DELAY abc\nDELAY 20";
    let h: Vec<(Position, u64)> = delay_hints(c, span(0, 0, 0).into_lines(3)).iter().map(|h| (h.position, h.millis)).collect();
    assert_eq!(
        h,
        vec![(Position { line: 0, character: 10 }, 1500), (Position { line: 3, character: 8 }, 20)]
    );
    assert!(delay_hints(c, span(1, 0, 0).into_lines(2)).is_empty());
}


#[test]
fn server_hover_prefers_device_variables() {
    let c = "IF $_HOST_OS == 1 THEN\nDELAY 5";
    let v = hover_response(c, Position { line: 0, character: 3 }).unwrap();
    assert!(v.markdown.starts_with("**$_HOST_OS**"));
    let after = hover_response(c, Position { line: 0, character: 4 });
    assert!(after.unwrap().markdown.starts_with("**$_HOST_OS**"));
    let inside = hover_response(c, Position { line: 0, character: 5 }).unwrap();
    assert!(inside.markdown.starts_with("**IF**"));
    let cmd = hover_response(c, Position { line: 1, character: 0 }).unwrap();
    assert!(cmd.markdown.starts_with("**DELAY**"));
    assert!(hover_response(c, Position { line: 4, character: 0 }).is_none());
}

#[test]
fn server_completions_by_context() {
    assert_eq!(completion_response(Some("STRING $"), Position { line: 0, character: 8 }).len(), 11);
    assert_eq!(completion_response(Some("STRING x"), Position { line: 0, character: 8 }).len(), 133);
    assert_eq!(completion_response(None, Position { line: 0, character: 0 }).len(), 133);
    assert!(completion_response(Some("a"), Position { line: 3, character: 0 }).is_empty());
}


#[test]
fn semantic_tokens_read_unicode_letters_in_names() {
    // `é` is a letter, so it belongs to the variable; its length counts in bytes.
    let t = generate_semantic_tokens("VAR $café = 1");
    assert_eq!(toks(&t)[1], (0, 4, 6, 2, 0));
    // A digit right after a non-ASCII letter is not a number either.
    let n = generate_semantic_tokens("DELAY é1");
    assert_eq!(toks(&n), vec![(0, 0, 5, 0, 0)]);
}
