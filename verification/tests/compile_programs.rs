use ducky_core::compiler::DuckyCompiler;
use ducky_core::errors::CompilerError;
use ducky_core::language::KeyboardLayout;

fn compile(src: &str) -> (Result<Vec<u8>, CompilerError>, DuckyCompiler) {
    let mut c = DuckyCompiler::new(None);
    let r = c.compile(src);
    (r, c)
}

#[test]
fn string_types_each_character() {
    let (r, c) = compile("STRING ab");
    assert_eq!(r.unwrap(), vec![0x04, 0x00, 0x05, 0x00]);
    assert!(c.errors.is_empty());
    assert!(!c.ds3_detected);
}

#[test]
fn stringln_ends_with_enter() {
    let (r, _) = compile("STRINGLN a");
    assert_eq!(r.unwrap(), vec![0x04, 0x00, 0x28, 0x00]);
}

#[test]
fn shifted_letter_carries_its_modifier() {
    let (r, _) = compile("STRING A");
    assert_eq!(r.unwrap(), vec![0x04, 0x02]);
}

#[test]
fn enter_line() {
    let (r, _) = compile("ENTER");
    assert_eq!(r.unwrap(), vec![0x28, 0x00]);
}

#[test]
fn delay_is_split_in_blocks_of_255() {
    let (r, _) = compile("DELAY 500");
    assert_eq!(r.unwrap(), vec![0x00, 0xFF, 0x00, 0xF5]);
}

#[test]
fn short_delay() {
    let (r, _) = compile("DELAY 10");
    assert_eq!(r.unwrap(), vec![0x00, 0x0A]);
}

#[test]
fn blank_and_comment_lines_give_nothing() {
    let (r, _) = compile("\n   \nREM hello\n// note\nSTRING b\n");
    assert_eq!(r.unwrap(), vec![0x05, 0x00]);
}

#[test]
fn carriage_returns_are_ignored() {
    let (r, _) = compile("STRING a\r\nSTRING b\r\n");
    assert_eq!(r.unwrap(), vec![0x04, 0x00, 0x05, 0x00]);
}

#[test]
fn repeat_runs_the_command_again() {
    let (r, _) = compile("REPEAT 3 STRING a");
    assert_eq!(r.unwrap(), vec![0x04, 0x00, 0x04, 0x00, 0x04, 0x00]);
}

#[test]
fn key_down_writes_opcode_and_operand() {
    let (r, c) = compile("KEY_DOWN 0x04");
    assert_eq!(r.unwrap(), vec![0x0A, 0xEA, 0x04, 0x00]);
    assert!(c.ds3_detected);
}

#[test]
fn mod_key_down_writes_two_operands() {
    let (r, _) = compile("MOD_KEY_DOWN 0x0204");
    assert_eq!(r.unwrap(), vec![0x0D, 0xEA, 0x02, 0x04]);
}

#[test]
fn inject_writes_its_hex_operand() {
    let (r, _) = compile("INJECT 0x1F");
    assert_eq!(r.unwrap(), vec![0xE9, 0xE8, 0x1F, 0x00]);
}

#[test]
fn random_letter_needs_the_language_pack() {
    let (r, c) = compile("RANDOM_LOWERCASE_LETTER");
    let bytes = r.unwrap();
    assert!(c.state.requires_lang_pack);
    assert_eq!(&bytes[0..2], &[0xE8, 0xE8]);
    assert!(bytes.ends_with(&[0xE9, 0xE9, 0xFA, 0x42]));
}

#[test]
fn button_block_opens_and_closes() {
    let (r, _) = compile("BUTTON_DEF\nSTRING a\nEND_BUTTON");
    assert_eq!(
        r.unwrap(),
        vec![0xEA, 0xEE, 0x00, 0x01, 0x04, 0x00, 0xEB, 0xF4, 0x00, 0x01]
    );
}

#[test]
fn variables_come_before_the_code() {
    let (r, c) = compile("VAR $a = 5");
    let bytes = r.unwrap();
    assert!(c.errors.is_empty());
    assert!(c.ds3_detected);
    assert_eq!(&bytes[0..2], &[0xE8, 0xE8]);
    assert_eq!(bytes.len() % 2, 0);
}

#[test]
fn if_block_compiles_without_errors() {
    let (r, c) = compile("VAR $a = 1\nIF ($a == 1) THEN\nSTRING a\nEND_IF");
    assert!(r.is_ok());
    assert!(c.errors.is_empty());
    assert!(c.state.block_stack.is_empty());
}

#[test]
fn while_loop_compiles_without_errors() {
    let (r, c) = compile("VAR $i = 0\nWHILE ($i < 3)\n$i = ($i + 1)\nEND_WHILE");
    assert!(r.is_ok());
    assert!(c.errors.is_empty());
}

#[test]
fn function_call_compiles_without_errors() {
    let (r, c) = compile("FUNCTION f()\nSTRING a\nEND_FUNCTION\nf()");
    assert!(r.is_ok());
    assert!(c.errors.is_empty());
}

#[test]
fn attackmode_hid() {
    let (r, _) = compile("ATTACKMODE HID");
    assert_eq!(r.unwrap(), vec![0xF1, 0xF1, 0xF1, 0xF1]);
}

#[test]
fn key_combination_sums_codes() {
    let (r, _) = compile("CTRL ALT DELETE");
    assert_eq!(r.unwrap(), vec![0x4C, 0x05]);
}

#[test]
fn unclosed_if_is_refused() {
    let (r, _) = compile("IF TRUE THEN\nSTRING a");
    match r {
        Err(CompilerError::MissingEnd { block_type, .. }) => assert_eq!(block_type, "IF/WHILE"),
        other => panic!("unexpected {:?}", other),
    }
}

#[test]
fn unclosed_button_is_refused() {
    let (r, _) = compile("BUTTON_DEF");
    match r {
        Err(CompilerError::MissingEnd { block_type, .. }) => assert_eq!(block_type, "BUTTON"),
        other => panic!("unexpected {:?}", other),
    }
}

#[test]
fn define_twice_is_refused() {
    let (r, _) = compile("DEFINE #A 1\nDEFINE #A 2");
    match r {
        Err(CompilerError::DuplicateDefinition { line, name }) => {
            assert_eq!(line, 2);
            assert_eq!(name, "#A");
        }
        other => panic!("unexpected {:?}", other),
    }
}

#[test]
fn define_is_replaced() {
    let (r, _) = compile("DEFINE #T ab\nSTRING #T");
    assert_eq!(r.unwrap(), vec![0x04, 0x00, 0x05, 0x00]);
}

#[test]
fn unknown_variable_is_recorded() {
    let (r, c) = compile("INJECT_VAR $x");
    assert!(r.is_ok());
    assert_eq!(c.errors.len(), 1);
    match &c.errors[0] {
        CompilerError::UnknownVariable { line, name } => {
            assert_eq!(*line, 0);
            assert_eq!(name, "$x");
        }
        other => panic!("unexpected {:?}", other),
    }
}

#[test]
fn empty_parentheses_are_recorded() {
    assert_eq!(
        ducky_core::parser::split_syntax_line("IF ( ) THEN"),
        vec!["IF", "(", ")", "THEN"]
    );
    assert_eq!(
        ducky_core::lexer::tokenize_line("IF ( ) THEN"),
        ducky_core::lexer::TokenType::If
    );
    let (r, c) = compile("IF ( ) THEN");
    assert!(!c.errors.is_empty(), "result {:?}", r);
    assert!(matches!(c.errors[0], CompilerError::EmptyExpression { line: 0 }));
}

#[test]
fn unbalanced_parentheses_are_recorded() {
    let (_, c) = compile("VAR $a = (1");
    assert!(matches!(
        c.errors[0],
        CompilerError::MismatchedParentheses { line: 0, left: 1, right: 0 }
    ));
}

#[test]
fn three_digit_hex_is_recorded() {
    let (_, c) = compile("INJECT 123");
    match &c.errors[0] {
        CompilerError::InvalidHex { value, .. } => assert_eq!(value, "123"),
        other => panic!("unexpected {:?}", other),
    }
}

#[test]
fn nested_function_is_recorded() {
    let (_, c) = compile("FUNCTION f()\nFUNCTION g()\nEND_FUNCTION");
    match &c.errors[0] {
        CompilerError::SyntaxError { line, message, .. } => {
            assert_eq!(*line, 1);
            assert_eq!(message, "Nested functions not allowed");
        }
        other => panic!("unexpected {:?}", other),
    }
}

#[test]
fn vid_without_pid_is_recorded() {
    let (_, c) = compile("ATTACKMODE HID VID_1234");
    match &c.errors[0] {
        CompilerError::SyntaxError { message, .. } => {
            assert_eq!(message, "VID + PID must both be defined")
        }
        other => panic!("unexpected {:?}", other),
    }
}

#[test]
fn oversized_payload_is_refused() {
    let src = format!("STRING {}", "a".repeat(8200));
    let (r, _) = compile(&src);
    match r {
        Err(CompilerError::PayloadTooLarge { size }) => assert_eq!(size, 16400),
        other => panic!("unexpected {:?}", other.map(|b| b.len())),
    }
}

#[test]
fn custom_layout_is_used() {
    let mut layout = KeyboardLayout::new();
    layout.insert("a", "00,00,14");
    let mut c = DuckyCompiler::new(Some(layout));
    assert_eq!(c.compile("STRING a").unwrap(), vec![0x14, 0x00]);
}

#[test]
fn missing_key_types_nothing() {
    let layout = KeyboardLayout::new();
    let mut c = DuckyCompiler::new(Some(layout));
    assert_eq!(c.compile("STRING a").unwrap(), Vec::<u8>::new());
}

#[test]
fn bare_repeat_runs_the_previous_command_again() {
    let (r, _) = compile("ENTER\nREPEAT 2");
    assert_eq!(r.unwrap(), vec![0x28, 0x00, 0x28, 0x00, 0x28, 0x00]);
}

#[test]
fn bare_repeat_skips_comments_when_finding_the_previous_command() {
    let (r, _) = compile("STRING a\nREM again\nREPEAT 2");
    assert_eq!(r.unwrap(), vec![0x04, 0x00, 0x04, 0x00, 0x04, 0x00]);
}

#[test]
fn bare_repeat_with_no_previous_command_does_nothing() {
    let (r, c) = compile("REPEAT 3");
    assert_eq!(r.unwrap(), Vec::<u8>::new());
    assert!(c.errors.is_empty());
}
