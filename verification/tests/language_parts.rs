use ducky_core::errors::{CompilerError, CompilerWarning};
use ducky_core::language::KeyboardLayout;
use ducky_core::lexer::{is_define, is_end_rem_block, is_rem, is_string_block, tokenize_line, tokenize_trimmed, TokenType};
use ducky_core::parser::{split_syntax_line, ParserState};
use ducky_core::preprocessor::Preprocessor;

#[test]
fn tokens_of_common_lines() {
    assert_eq!(tokenize_line("  STRING hello  "), TokenType::String);
    assert_eq!(tokenize_line("STRINGLN hi"), TokenType::StringLn);
    assert_eq!(tokenize_line("DELAY 100"), TokenType::Delay);
    assert_eq!(tokenize_line("DELAY $d"), TokenType::DelayVar);
    assert_eq!(tokenize_line("REM note"), TokenType::Rem);
    assert_eq!(tokenize_line("IF ($a == 1) THEN"), TokenType::If);
    assert_eq!(tokenize_line("END_IF"), TokenType::EndIf);
    assert_eq!(tokenize_line("WHILE TRUE"), TokenType::While);
    assert_eq!(tokenize_line("VAR $a = 1"), TokenType::Assignment);
    assert_eq!(tokenize_line("CTRL"), TokenType::Modifier);
    assert_eq!(tokenize_line("ENTER"), TokenType::Enter);
    assert_eq!(tokenize_line("ATTACKMODE HID"), TokenType::Attackmode);
    assert_eq!(tokenize_line("something else"), TokenType::Unknown);
    assert_eq!(tokenize_trimmed("BUTTON_DEF"), TokenType::ButtonDef);
}

#[test]
fn line_predicates() {
    assert!(is_rem("REM hello"));
    assert!(is_define("DEFINE #X 1"));
    assert!(is_end_rem_block("END_REM"));
    assert!(!is_string_block("STRING hello"));
}

#[test]
fn syntax_line_splits_operators_and_calls() {
    assert_eq!(
        split_syntax_line("$a = ($b + 1)"),
        vec!["$a", "=", "(", "$b", "+", "1", ")"]
    );
    assert_eq!(split_syntax_line("IF f() == 2"), vec!["IF", "f()", "==", "2"]);
}

#[test]
fn variables_get_increasing_addresses() {
    let mut s = ParserState::new();
    let a = s.allocate_var("$a");
    let b = s.allocate_var("$b");
    assert_eq!(a, 1);
    assert_eq!(b, 2);
    assert_eq!(s.get_var_address("$a"), Some(1));
    assert!(s.var_exists("$b"));
    assert!(!s.var_exists("$c"));
    assert_eq!(s.assign_value("$a", "0500".to_string()).unwrap(), 1);
    assert_eq!(s.var_values[1], vec!['0', '5', '0', '0']);
    assert!(matches!(
        s.assign_value("$c", "0000".to_string()),
        Err(CompilerError::UnknownVariable { .. })
    ));
}

#[test]
fn labels_are_defined_once() {
    let mut s = ParserState::new();
    assert!(s.create_label("loop", 4).is_ok());
    assert!(s.label_exists("loop"));
    assert!(matches!(
        s.create_label("loop", 8),
        Err(CompilerError::DuplicateDefinition { .. })
    ));
}

#[test]
fn registers() {
    let mut s = ParserState::new();
    s.next_register();
    assert_eq!(s.total_eval_registers, 1);
    assert_eq!(s.current_register(), "$__r0");
    s.free_eval_registers = 0;
    s.next_register();
    assert_eq!(s.current_register(), "$__r1");
}

#[test]
fn word_classes() {
    assert!(ParserState::is_var("$x"));
    assert!(ParserState::is_hex("0x1F"));
    assert!(ParserState::is_numeric("-12"));
    assert!(ParserState::is_operator("=="));
    assert!(ParserState::is_reserved_constant("TRUE"));
    assert!(ParserState::contains_function_call("f()"));
    assert!(!ParserState::is_reserved_var("$x"));
}

#[test]
fn layout_lookup() {
    let us = KeyboardLayout::default_us();
    assert_eq!(us.get_bytes_for_key("a"), Some(vec!["00".to_string(), "00".to_string(), "04".to_string()]));
    assert_eq!(us.get_bytes_for_key("no such key"), None);
    let mut l = KeyboardLayout::new();
    l.insert("x", "01,02");
    assert_eq!(l.get_bytes_for_key("x"), Some(vec!["01".to_string(), "02".to_string()]));
}

#[test]
fn defines_are_replaced_and_reported() {
    let lines = vec!["DEFINE #NAME world".to_string(), "STRING hello #NAME".to_string()];
    let mut p = Preprocessor::new();
    assert!(p.gather_defines(&lines).is_ok());
    let lines = p.parse_ifdefs(lines).unwrap();
    let out = p.process(lines);
    assert_eq!(out[1], "STRING hello world");
    assert!(!p.warnings.is_empty());
    match &p.warnings[0] {
        CompilerWarning::DefineReplacement { line, label, .. } => {
            assert_eq!(*line, 2);
            assert_eq!(label, "#NAME");
        }
        other => panic!("unexpected {:?}", other),
    }
}

#[test]
fn disabled_blocks_are_marked() {
    let lines = vec![
        "DEFINE #DEBUG FALSE".to_string(),
        "IF_DEFINED_TRUE #DEBUG".to_string(),
        "STRING debug".to_string(),
        "END_IF_DEFINED".to_string(),
    ];
    let mut p = Preprocessor::new();
    p.gather_defines(&lines).unwrap();
    let out = p.parse_ifdefs(lines).unwrap();
    assert!(out[2].starts_with("PREPROCESSOR_DISABLED"));
}

#[test]
fn error_codes_and_messages() {
    let e = CompilerError::UnknownVariable { line: 3, name: "$x".to_string() };
    assert_eq!(e.code(), "E200");
    assert_eq!(e.message(), "Unknown variable: $x");
    assert_eq!(e.line(), Some(3));
    let p = CompilerError::PayloadTooLarge { size: 20000 };
    assert_eq!(p.line(), None);
    assert_eq!(p.message(), "Payload too large: 20000 bytes (max 16384)");
    let w = CompilerWarning::SuspiciousDelay { line: 2, delay: 60000 };
    assert_eq!(w.code(), "W005");
    assert_eq!(w.line(), 2);
    assert_eq!(w.message(), "Suspicious delay value: 60000ms (very long)");
}

#[test]
fn law_tokenizing_ignores_surrounding_whitespace() {
    for l in ["STRING hello", "DELAY 100", "REM x", "IF ($a == 1) THEN", "END_IF", ""] {
        let padded = format!(" \t {}\t  ", l);
        assert_eq!(tokenize_line(&padded), tokenize_line(l));
        assert_eq!(tokenize_line(l), tokenize_trimmed(l.trim()));
    }
}

#[test]
fn name_map_counts_distinct_names() {
    let mut m: ducky_core::namemap::NameMap<usize> = ducky_core::namemap::NameMap::new();
    assert_eq!(m.len(), 0);
    m.insert(vec!['a'], 1);
    m.insert(vec!['b'], 2);
    m.insert(vec!['a'], 3);
    assert_eq!(m.len(), 2);
    assert_eq!(m.insertions(), 3);
    assert_eq!(m.get(&['a']), Some(3));
}

#[test]
fn assign_value_refuses_an_address_without_a_slot() {
    let mut s = ParserState::new();
    s.var_map.insert(vec!['$', 'x'], 9);
    assert!(matches!(
        s.assign_value("$x", "0001".to_string()),
        Err(CompilerError::UnknownVariable { .. })
    ));
    assert_eq!(s.var_values.len(), 1);
}

#[test]
fn allocate_var_moves_the_next_address_on() {
    let mut s = ParserState::new();
    s.next_var_address = 5;
    assert_eq!(s.allocate_var("$a"), 5);
    assert_eq!(s.next_var_address, 6);
    assert_eq!(s.var_values.len(), 2);
    assert_eq!(s.get_var_address("$a"), Some(5));
}
