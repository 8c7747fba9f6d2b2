//! The lexer: the kind of command each line of a script holds.
use vstd::prelude::*;

use crate::text::{
    self, chars_of, contains_str, eq_str, ends_with_str, is_ws_char, starts_with_str, trim_chars,
};

verus! {

/// The kind of command a line holds.
#[derive(Debug, Clone, Copy, PartialEq, Eq, Structural)]
pub enum TokenType {
    Define,
    IfDefined,
    IfNotDefined,
    EndIfDefined,
    ElseDefined,
    String,
    StringLn,
    StringBlock,
    StringLnBlock,
    EndString,
    Rem,
    RemBlock,
    EndRemBlock,
    Comment,
    Delay,
    DelayVar,
    DefaultDelay,
    StringDelay,
    Hold,
    Release,
    Repeat,
    Enter,
    If,
    ElseIf,
    Else,
    EndIf,
    While,
    EndWhile,
    Function,
    EndFunction,
    FunctionCall,
    Return,
    Assignment,
    Declaration,
    ButtonDef,
    EndButtonDef,
    Attackmode,
    InjectVar,
    Inject,
    InjectMod,
    Keycode,
    ExfilVar,
    ModKeyDown,
    ModKeyUp,
    KeyDown,
    KeyUp,
    ModDown,
    ModUp,
    RandomLowercaseLetter,
    RandomUppercaseLetter,
    RandomNumber,
    RandomLetter,
    RandomSpecial,
    RandomChar,
    Modifier,
    Stage,
    EndStage,
    Extension,
    EndExtension,
    Breakpoint,
    InjectBreakpointLineNumber,
    PreprocessorDisabled,
    Unknown,
}

/// The language suffixes a string block may carry.
pub open spec fn lang(i: int) -> Seq<char> {
    if i == 0 {
        "_POWERSHELL"@
    } else if i == 1 {
        "_BASH"@
    } else if i == 2 {
        "_BATCH"@
    } else if i == 3 {
        "_PYTHON"@
    } else if i == 4 {
        "_HTML"@
    } else if i == 5 {
        "_RUBY"@
    } else {
        "_JAVASCRIPT"@
    }
}

pub fn lang_str(i: usize) -> (r: &'static str)
    requires
        i < 7,
    ensures
        r@ == lang(i as int),
{
    if i == 0 {
        return "_POWERSHELL";
    }
    if i == 1 {
        return "_BASH";
    }
    if i == 2 {
        return "_BATCH";
    }
    if i == 3 {
        return "_PYTHON";
    }
    if i == 4 {
        return "_HTML";
    }
    if i == 5 {
        return "_RUBY";
    }
    "_JAVASCRIPT"
}

/// The modifier names that stand alone on a line.
pub open spec fn is_us_modifier(t: Seq<char>) -> bool {
    ||| t == "CTRL"@
    ||| t == "CONTROL"@
    ||| t == "SHIFT"@
    ||| t == "ALT"@
    ||| t == "GUI"@
    ||| t == "WINDOWS"@
    ||| t == "CTRL-ALT"@
    ||| t == "COMMAND"@
}

pub fn is_us_modifier_chars(t: &[char]) -> (r: bool)
    ensures
        r == is_us_modifier(t@),
{
    eq_str(t, "CTRL") || eq_str(t, "CONTROL") || eq_str(t, "SHIFT") || eq_str(t, "ALT") || eq_str(t, "GUI") || eq_str(t, "WINDOWS") || eq_str(t, "CTRL-ALT") || eq_str(t, "COMMAND")
}

pub open spec fn first_char_whitespace(s: Seq<char>) -> bool {
    s.len() > 0 && text::is_ws(s[0])
}

pub fn first_char_ws_chars(s: &[char]) -> (r: bool)
    ensures
        r == first_char_whitespace(s@),
{
    s.len() > 0 && is_ws_char(s[0])
}

/// A count that starts with a number of at least two.
pub open spec fn repeat_number_prefix(s: Seq<char>) -> bool {
    s.len() > 0 && text::is_ascii_digit(s[0]) && (s[0] >= '2' || (s.len() >= 2
        && text::is_ascii_digit(s[1])))
}

pub fn repeat_number_prefix_chars(s: &[char]) -> (r: bool)
    ensures
        r == repeat_number_prefix(s@),
{
    s.len() > 0 && ('0' <= s[0] && s[0] <= '9') && (s[0] >= '2' || (s.len() >= 2 && ('0' <= s[1]
        && s[1] <= '9')))
}

/// Only digits, making a number of at least two.
pub open spec fn exact_number_2plus(s: Seq<char>) -> bool {
    s.len() > 0 && (forall|i: int| 0 <= i < s.len() ==> text::is_ascii_digit(#[trigger] s[i])) && (
    s.len() >= 2 || s[0] >= '2')
}

pub fn exact_number_2plus_chars(s: &[char]) -> (r: bool)
    ensures
        r == exact_number_2plus(s@),
{
    if s.len() == 0 {
        return false;
    }
    let mut i: usize = 0;
    while i < s.len()
        invariant
            i <= s@.len(),
            forall|k: int| 0 <= k < i ==> text::is_ascii_digit(#[trigger] s@[k]),
        decreases s@.len() - i,
    {
        if !('0' <= s[i] && s[i] <= '9') {
            return false;
        }
        i = i + 1;
    }
    s.len() >= 2 || s[0] >= '2'
}

/// `t` ends with `tail`, and what lies between the first `head_len`
/// characters and `tail` has at least two characters and begins and ends
/// with whitespace.
pub open spec fn inline_body(t: Seq<char>, head_len: int, tail: Seq<char>) -> bool {
    &&& text::ends_with(t, tail)
    &&& t.len() >= head_len + tail.len()
    &&& {
        let mid = t.subrange(head_len, t.len() - tail.len());
        mid.len() >= 2 && text::is_ws(mid[0]) && text::is_ws(mid.last())
    }
}

pub fn inline_body_chars(t: &[char], head_len: usize, tail: &str) -> (r: bool)
    ensures
        r == inline_body(t@, head_len as int, tail@),
{
    if !ends_with_str(t, tail) {
        return false;
    }
    let tl = chars_of(tail);
    if t.len() < tl.len() || t.len() - tl.len() < head_len {
        return false;
    }
    let end = t.len() - tl.len();
    let mid = &t[head_len..end];
    mid.len() >= 2 && is_ws_char(mid[0]) && is_ws_char(mid[mid.len() - 1])
}

/// A one-line string command: `base`, an optional language suffix when
/// `allow_lang`, then a body and the closing `tail`.
pub open spec fn matches_inline(t: Seq<char>, base: Seq<char>, tail: Seq<char>, allow_lang: bool) -> bool {
    &&& text::starts_with(t, base)
    &&& {
        ||| inline_body(t, base.len() as int, tail)
        ||| (allow_lang && exists|i: int|
            0 <= i < 7 && text::starts_with(t.skip(base.len() as int), #[trigger] lang(i))
                && inline_body(t, (base.len() + lang(i).len()) as int, tail))
    }
}

pub fn matches_inline_chars(t: &[char], base: &str, tail: &str, allow_lang: bool) -> (r: bool)
    ensures
        r == matches_inline(t@, base@, tail@, allow_lang),
{
    if !starts_with_str(t, base) {
        return false;
    }
    let bl = chars_of(base).len();
    if inline_body_chars(t, bl, tail) {
        return true;
    }
    if allow_lang {
        let rest = &t[bl..t.len()];
        assert(rest@ =~= t@.skip(base@.len() as int));
        let mut i: usize = 0;
        while i < 7
            invariant
                i <= 7,
                bl == base@.len(),
                bl <= t@.len(),
                rest@ == t@.skip(base@.len() as int),
                rest@.len() + bl == t@.len(),
                t@.len() == t.len(),
                text::starts_with(t@, base@),
                allow_lang,
                forall|k: int|
                    0 <= k < i ==> !(text::starts_with(rest@, #[trigger] lang(k)) && inline_body(
                        t@,
                        (base@.len() + lang(k).len()) as int,
                        tail@,
                    )),
            decreases 7 - i,
        {
            let l = lang_str(i);
            if starts_with_str(rest, l) {
                let ll = chars_of(l).len();
                assert(ll <= rest@.len());
                if inline_body_chars(t, bl + ll, tail) {
                    assert(text::starts_with(t@.skip(base@.len() as int), lang(i as int)));
                    return true;
                }
            }
            i = i + 1;
        }
    }
    false
}

/// `t` is `base`, or `base` followed by a language suffix.
pub open spec fn matches_block(t: Seq<char>, base: Seq<char>) -> bool {
    ||| t == base
    ||| (text::starts_with(t, base) && exists|i: int|
        0 <= i < 7 && t.skip(base.len() as int) == #[trigger] lang(i))
}

pub fn matches_block_chars(t: &[char], base: &str) -> (r: bool)
    ensures
        r == matches_block(t@, base@),
{
    if eq_str(t, base) {
        return true;
    }
    if !starts_with_str(t, base) {
        return false;
    }
    let bl = chars_of(base).len();
    let rest = &t[bl..t.len()];
    assert(rest@ =~= t@.skip(base@.len() as int));
    let mut i: usize = 0;
    while i < 7
        invariant
            i <= 7,
            rest@ == t@.skip(base@.len() as int),
            text::starts_with(t@, base@),
            forall|k: int| 0 <= k < i ==> rest@ != #[trigger] lang(k),
        decreases 7 - i,
    {
        if eq_str(rest, lang_str(i)) {
            assert(t@.skip(base@.len() as int) == lang(i as int));
            return true;
        }
        i = i + 1;
    }
    false
}

pub open spec fn is_word_char(c: char) -> bool {
    text::is_ascii_alnum(c) || c == '_'
}

/// How many characters at the start of `t` are letters, digits or `_`.
pub open spec fn leading_word_chars(t: Seq<char>) -> nat
    decreases t.len(),
{
    if t.len() > 0 && is_word_char(t[0]) {
        1 + leading_word_chars(t.drop_first())
    } else {
        0
    }
}

pub proof fn lemma_leading_word_chars(t: Seq<char>, k: int)
    requires
        0 <= k <= t.len(),
        forall|m: int| 0 <= m < k ==> is_word_char(#[trigger] t[m]),
        k == t.len() || !is_word_char(t[k]),
    ensures
        leading_word_chars(t) == k,
    decreases k,
{
    if k > 0 {
        assert forall|m: int| 0 <= m < k - 1 implies is_word_char(#[trigger] t.drop_first()[m]) by {
            assert(t.drop_first()[m] == t[m + 1]);
        }
        lemma_leading_word_chars(t.drop_first(), k - 1);
    }
}

pub fn leading_word_chars_count(t: &[char]) -> (r: usize)
    ensures
        r == leading_word_chars(t@),
        r <= t@.len(),
{
    let mut i: usize = 0;
    while i < t.len() && (('0' <= t[i] && t[i] <= '9') || ('a' <= t[i] && t[i] <= 'z') || ('A'
        <= t[i] && t[i] <= 'Z') || t[i] == '_')
        invariant
            i <= t@.len(),
            forall|m: int| 0 <= m < i ==> is_word_char(#[trigger] t@[m]),
        decreases t@.len() - i,
    {
        i = i + 1;
    }
    proof {
        lemma_leading_word_chars(t@, i as int);
    }
    i
}

/// After the first `$`, the line holds `= `.
pub open spec fn is_assignment(t: Seq<char>) -> bool {
    let p = text::index_of_char(t, '$');
    p < t.len() && text::contains(t.skip(p + 1 as int), "= "@)
}

pub fn is_assignment_chars(t: &[char]) -> (r: bool)
    ensures
        r == is_assignment(t@),
{
    let mut p: usize = 0;
    while p < t.len() && t[p] != '$'
        invariant
            p <= t@.len(),
            forall|m: int| 0 <= m < p ==> t@[m] != '$',
        decreases t@.len() - p,
    {
        p = p + 1;
    }
    proof {
        text::lemma_index_of_char(t@, '$', p as int);
    }
    if p == t.len() {
        return false;
    }
    let rest = &t[p + 1..t.len()];
    assert(rest@ =~= t@.skip(p + 1));
    contains_str(rest, "= ")
}

/// A call of a function without arguments: a name, then `()`.
pub open spec fn is_function_call_no_return(t: Seq<char>) -> bool {
    let n = leading_word_chars(t);
    n >= 1 && text::starts_with(t.skip(n as int), "()"@)
}

pub fn is_function_call_no_return_chars(t: &[char]) -> (r: bool)
    ensures
        r == is_function_call_no_return(t@),
{
    let n = leading_word_chars_count(t);
    if n < 1 {
        return false;
    }
    let rest = &t[n..t.len()];
    assert(rest@ =~= t@.skip(n as int));
    starts_with_str(rest, "()")
}

pub open spec fn is_preprocessor_disabled_spec(t: Seq<char>) -> bool {
    text::starts_with(t, "PREPROCESSOR_DISABLED"@)
}

pub fn is_preprocessor_disabled_chars(t: &[char]) -> (r: bool)
    ensures
        r == is_preprocessor_disabled_spec(t@),
{
    starts_with_str(t, "PREPROCESSOR_DISABLED")
}

pub fn is_preprocessor_disabled(t: &str) -> (r: bool)
    ensures
        r == is_preprocessor_disabled_spec(t@),
{
    let c = chars_of(t);
    is_preprocessor_disabled_chars(c.as_slice())
}

pub open spec fn is_rem_spec(t: Seq<char>) -> bool {
    text::starts_with(t, "REM"@)
}

pub fn is_rem_chars(t: &[char]) -> (r: bool)
    ensures
        r == is_rem_spec(t@),
{
    starts_with_str(t, "REM")
}

pub fn is_rem(t: &str) -> (r: bool)
    ensures
        r == is_rem_spec(t@),
{
    let c = chars_of(t);
    is_rem_chars(c.as_slice())
}

pub open spec fn is_end_rem_block_spec(t: Seq<char>) -> bool {
    text::starts_with(t, "END_REM"@)
}

pub fn is_end_rem_block_chars(t: &[char]) -> (r: bool)
    ensures
        r == is_end_rem_block_spec(t@),
{
    starts_with_str(t, "END_REM")
}

pub fn is_end_rem_block(t: &str) -> (r: bool)
    ensures
        r == is_end_rem_block_spec(t@),
{
    let c = chars_of(t);
    is_end_rem_block_chars(c.as_slice())
}

pub open spec fn is_define_spec(t: Seq<char>) -> bool {
    text::starts_with(t, "DEFINE "@)
}

pub fn is_define_chars(t: &[char]) -> (r: bool)
    ensures
        r == is_define_spec(t@),
{
    starts_with_str(t, "DEFINE ")
}

pub fn is_define(t: &str) -> (r: bool)
    ensures
        r == is_define_spec(t@),
{
    let c = chars_of(t);
    is_define_chars(c.as_slice())
}

pub open spec fn is_ifdef_spec(t: Seq<char>) -> bool {
    text::starts_with(t, "IF_DEFINED_TRUE "@)
}

pub fn is_ifdef_chars(t: &[char]) -> (r: bool)
    ensures
        r == is_ifdef_spec(t@),
{
    starts_with_str(t, "IF_DEFINED_TRUE ")
}

pub fn is_ifdef(t: &str) -> (r: bool)
    ensures
        r == is_ifdef_spec(t@),
{
    let c = chars_of(t);
    is_ifdef_chars(c.as_slice())
}

pub open spec fn is_ifnotdef_spec(t: Seq<char>) -> bool {
    text::starts_with(t, "IF_NOT_DEFINED_TRUE "@)
}

pub fn is_ifnotdef_chars(t: &[char]) -> (r: bool)
    ensures
        r == is_ifnotdef_spec(t@),
{
    starts_with_str(t, "IF_NOT_DEFINED_TRUE ")
}

pub fn is_ifnotdef(t: &str) -> (r: bool)
    ensures
        r == is_ifnotdef_spec(t@),
{
    let c = chars_of(t);
    is_ifnotdef_chars(c.as_slice())
}

pub open spec fn is_elsedef_spec(t: Seq<char>) -> bool {
    t == "ELSE_DEFINED"@
}

pub fn is_elsedef_chars(t: &[char]) -> (r: bool)
    ensures
        r == is_elsedef_spec(t@),
{
    eq_str(t, "ELSE_DEFINED")
}

pub fn is_elsedef(t: &str) -> (r: bool)
    ensures
        r == is_elsedef_spec(t@),
{
    let c = chars_of(t);
    is_elsedef_chars(c.as_slice())
}

pub open spec fn is_endifdef_spec(t: Seq<char>) -> bool {
    t == "END_IF_DEFINED"@
}

pub fn is_endifdef_chars(t: &[char]) -> (r: bool)
    ensures
        r == is_endifdef_spec(t@),
{
    eq_str(t, "END_IF_DEFINED")
}

pub fn is_endifdef(t: &str) -> (r: bool)
    ensures
        r == is_endifdef_spec(t@),
{
    let c = chars_of(t);
    is_endifdef_chars(c.as_slice())
}

pub open spec fn is_end_string_spec(t: Seq<char>) -> bool {
    t == "END_STRING"@ || t == "END_STRINGLN"@
}

pub fn is_end_string_chars(t: &[char]) -> (r: bool)
    ensures
        r == is_end_string_spec(t@),
{
    eq_str(t, "END_STRING") || eq_str(t, "END_STRINGLN")
}

pub fn is_end_string(t: &str) -> (r: bool)
    ensures
        r == is_end_string_spec(t@),
{
    let c = chars_of(t);
    is_end_string_chars(c.as_slice())
}

pub open spec fn is_string_block_spec(t: Seq<char>) -> bool {
    matches_block(t, "STRING"@)
}

pub fn is_string_block_chars(t: &[char]) -> (r: bool)
    ensures
        r == is_string_block_spec(t@),
{
    matches_block_chars(t, "STRING")
}

pub fn is_string_block(t: &str) -> (r: bool)
    ensures
        r == is_string_block_spec(t@),
{
    let c = chars_of(t);
    is_string_block_chars(c.as_slice())
}

pub open spec fn is_stringln_block_spec(t: Seq<char>) -> bool {
    matches_block(t, "STRINGLN"@)
}

pub fn is_stringln_block_chars(t: &[char]) -> (r: bool)
    ensures
        r == is_stringln_block_spec(t@),
{
    matches_block_chars(t, "STRINGLN")
}

pub fn is_stringln_block(t: &str) -> (r: bool)
    ensures
        r == is_stringln_block_spec(t@),
{
    let c = chars_of(t);
    is_stringln_block_chars(c.as_slice())
}

/// The token kind of a trimmed line: the first rule that matches, in order.
pub open spec fn tokenize_spec(t: Seq<char>) -> TokenType {
    if is_preprocessor_disabled_spec(t) {
        TokenType::PreprocessorDisabled
    } else if text::starts_with(t, "REM_BLOCK"@) {
        TokenType::RemBlock
    } else if is_end_rem_block_spec(t) {
        TokenType::EndRemBlock
    } else if is_rem_spec(t) {
        TokenType::Rem
    } else if text::starts_with(t, "// "@) {
        TokenType::Comment
    } else if is_define_spec(t) {
        TokenType::Define
    } else if is_ifdef_spec(t) {
        TokenType::IfDefined
    } else if is_ifnotdef_spec(t) {
        TokenType::IfNotDefined
    } else if is_elsedef_spec(t) {
        TokenType::ElseDefined
    } else if is_endifdef_spec(t) {
        TokenType::EndIfDefined
    } else if text::starts_with(t, "INJECT_VAR $"@) {
        TokenType::InjectVar
    } else if text::starts_with(t, "DELAY $"@) {
        TokenType::DelayVar
    } else if text::starts_with(t, "DELAY "@) {
        TokenType::Delay
    } else if is_end_string_spec(t) {
        TokenType::EndString
    } else if matches_inline(t, "STRINGLN"@, "END_STRING"@, false) {
        TokenType::StringLn
    } else if matches_inline(t, "STRING"@, "END_STRING"@, false) {
        TokenType::String
    } else if matches_inline(t, "STRINGLN"@, "END_STRINGLN"@, true) {
        TokenType::StringLn
    } else if matches_inline(t, "STRING"@, "END_STRING"@, true) {
        TokenType::String
    } else if is_stringln_block_spec(t) {
        TokenType::StringLnBlock
    } else if is_string_block_spec(t) {
        TokenType::StringBlock
    } else if text::starts_with(t, "STRINGLN"@) && first_char_whitespace(t.skip(8)) {
        TokenType::StringLn
    } else if text::starts_with(t, "STRING"@) && first_char_whitespace(t.skip(6)) {
        TokenType::String
    } else if text::starts_with(t, "HOLD "@) {
        TokenType::Hold
    } else if text::starts_with(t, "RELEASE "@) {
        TokenType::Release
    } else if text::starts_with(t, "REPEAT "@) && repeat_number_prefix(t.skip(7)) {
        TokenType::Repeat
    } else if text::starts_with(t, "ENTER"@) {
        TokenType::Enter
    } else if text::starts_with(t, "DEFAULTDELAY "@) && exact_number_2plus(t.skip(13)) {
        TokenType::DefaultDelay
    } else if text::starts_with(t, "DEFAULT_DELAY "@) && exact_number_2plus(t.skip(14)) {
        TokenType::DefaultDelay
    } else if text::starts_with(t, "STRINGDELAY "@) && repeat_number_prefix(t.skip(12)) {
        TokenType::StringDelay
    } else if text::starts_with(t, "STRING_DELAY "@) && repeat_number_prefix(t.skip(13)) {
        TokenType::StringDelay
    } else if text::starts_with(t, "IF "@) {
        TokenType::If
    } else if text::starts_with(t, "}"@) {
        TokenType::EndIf
    } else if text::starts_with(t, "END_IF"@) {
        TokenType::EndIf
    } else if text::starts_with(t, "ELSE IF "@) {
        TokenType::ElseIf
    } else if text::starts_with(t, "ELSE"@) {
        TokenType::Else
    } else if text::starts_with(t, "WHILE "@) {
        TokenType::While
    } else if text::starts_with(t, "END_WHILE"@) {
        TokenType::EndWhile
    } else if text::starts_with(t, "STAGE "@) {
        TokenType::Stage
    } else if text::starts_with(t, "END_STAGE"@) {
        TokenType::EndStage
    } else if text::starts_with(t, "EXTENSION "@) {
        TokenType::Extension
    } else if text::starts_with(t, "END_EXTENSION"@) {
        TokenType::EndExtension
    } else if text::starts_with(t, "FUNCTION "@) && text::contains(t.skip(9), "()"@) {
        TokenType::Function
    } else if text::starts_with(t, "END_FUNCTION"@) {
        TokenType::EndFunction
    } else if text::starts_with(t, "ATTACKMODE "@) {
        TokenType::Attackmode
    } else if text::starts_with(t, "RETURN "@) {
        TokenType::Return
    } else if is_assignment(t) {
        TokenType::Assignment
    } else if text::starts_with(t, "VAR $"@) && text::contains(t.skip(5), "= "@) {
        TokenType::Declaration
    } else if is_function_call_no_return(t) {
        TokenType::FunctionCall
    } else if text::starts_with(t, "BUTTON_DEF"@) {
        TokenType::ButtonDef
    } else if text::starts_with(t, "END_BUTTON"@) {
        TokenType::EndButtonDef
    } else if text::starts_with(t, "DEBUGGER_BREAKPOINT"@) {
        TokenType::Breakpoint
    } else if text::starts_with(t, "INJECT_BREAKPOINT_LINE_NUMBER"@) {
        TokenType::InjectBreakpointLineNumber
    } else if text::starts_with(t, "RANDOM_LOWERCASE_LETTER"@) {
        TokenType::RandomLowercaseLetter
    } else if text::starts_with(t, "RANDOM_UPPERCASE_LETTER"@) {
        TokenType::RandomUppercaseLetter
    } else if text::starts_with(t, "RANDOM_NUMBER"@) {
        TokenType::RandomNumber
    } else if text::starts_with(t, "RANDOM_LETTER"@) {
        TokenType::RandomLetter
    } else if text::starts_with(t, "RANDOM_SPECIAL"@) {
        TokenType::RandomSpecial
    } else if text::starts_with(t, "RANDOM_CHAR"@) {
        TokenType::RandomChar
    } else if text::starts_with(t, "RESTORE_HOST_KEYBOARD_LOCK_STATE"@) {
        TokenType::Unknown
    } else if t == "INJECT_MOD"@ {
        TokenType::InjectMod
    } else if text::starts_with(t, "INJECT_MOD "@) {
        TokenType::InjectMod
    } else if text::starts_with(t, "INJECT "@) {
        TokenType::Inject
    } else if text::starts_with(t, "KEYCODE "@) {
        TokenType::Keycode
    } else if text::starts_with(t, "EXFIL $"@) {
        TokenType::ExfilVar
    } else if text::starts_with(t, "MOD_KEY_DOWN "@) {
        TokenType::ModKeyDown
    } else if text::starts_with(t, "MOD_KEY_UP "@) {
        TokenType::ModKeyUp
    } else if text::starts_with(t, "MOD_UP "@) {
        TokenType::ModUp
    } else if text::starts_with(t, "KEY_UP "@) {
        TokenType::KeyUp
    } else if text::starts_with(t, "KEY_DOWN "@) {
        TokenType::KeyDown
    } else if text::starts_with(t, "MOD_DOWN "@) {
        TokenType::ModDown
    } else if is_us_modifier(t) {
        TokenType::Modifier
    } else {
        TokenType::Unknown
    }
}

/// The token kind of a line that is already trimmed.
pub fn tokenize_trimmed_chars(t: &[char]) -> (r: TokenType)
    ensures
        r == tokenize_spec(t@),
{
    proof {
        reveal_strlit("STRINGLN");
        reveal_strlit("STRING");
        reveal_strlit("REPEAT ");
        reveal_strlit("DEFAULTDELAY ");
        reveal_strlit("DEFAULT_DELAY ");
        reveal_strlit("STRINGDELAY ");
        reveal_strlit("STRING_DELAY ");
        reveal_strlit("FUNCTION ");
        reveal_strlit("VAR $");
    }
    if is_preprocessor_disabled_chars(t) {
        return TokenType::PreprocessorDisabled;
    }
    if starts_with_str(t, "REM_BLOCK") {
        return TokenType::RemBlock;
    }
    if is_end_rem_block_chars(t) {
        return TokenType::EndRemBlock;
    }
    if is_rem_chars(t) {
        return TokenType::Rem;
    }
    if starts_with_str(t, "// ") {
        return TokenType::Comment;
    }
    if is_define_chars(t) {
        return TokenType::Define;
    }
    if is_ifdef_chars(t) {
        return TokenType::IfDefined;
    }
    if is_ifnotdef_chars(t) {
        return TokenType::IfNotDefined;
    }
    if is_elsedef_chars(t) {
        return TokenType::ElseDefined;
    }
    if is_endifdef_chars(t) {
        return TokenType::EndIfDefined;
    }
    if starts_with_str(t, "INJECT_VAR $") {
        return TokenType::InjectVar;
    }
    if starts_with_str(t, "DELAY $") {
        return TokenType::DelayVar;
    }
    if starts_with_str(t, "DELAY ") {
        return TokenType::Delay;
    }
    if is_end_string_chars(t) {
        return TokenType::EndString;
    }
    if matches_inline_chars(t, "STRINGLN", "END_STRING", false) {
        return TokenType::StringLn;
    }
    if matches_inline_chars(t, "STRING", "END_STRING", false) {
        return TokenType::String;
    }
    if matches_inline_chars(t, "STRINGLN", "END_STRINGLN", true) {
        return TokenType::StringLn;
    }
    if matches_inline_chars(t, "STRING", "END_STRING", true) {
        return TokenType::String;
    }
    if is_stringln_block_chars(t) {
        return TokenType::StringLnBlock;
    }
    if is_string_block_chars(t) {
        return TokenType::StringBlock;
    }
    if starts_with_str(t, "STRINGLN") && first_char_ws_chars(&t[8..t.len()]) {
        return TokenType::StringLn;
    }
    if starts_with_str(t, "STRING") && first_char_ws_chars(&t[6..t.len()]) {
        return TokenType::String;
    }
    if starts_with_str(t, "HOLD ") {
        return TokenType::Hold;
    }
    if starts_with_str(t, "RELEASE ") {
        return TokenType::Release;
    }
    if starts_with_str(t, "REPEAT ") && repeat_number_prefix_chars(&t[7..t.len()]) {
        return TokenType::Repeat;
    }
    if starts_with_str(t, "ENTER") {
        return TokenType::Enter;
    }
    if starts_with_str(t, "DEFAULTDELAY ") && exact_number_2plus_chars(&t[13..t.len()]) {
        return TokenType::DefaultDelay;
    }
    if starts_with_str(t, "DEFAULT_DELAY ") && exact_number_2plus_chars(&t[14..t.len()]) {
        return TokenType::DefaultDelay;
    }
    if starts_with_str(t, "STRINGDELAY ") && repeat_number_prefix_chars(&t[12..t.len()]) {
        return TokenType::StringDelay;
    }
    if starts_with_str(t, "STRING_DELAY ") && repeat_number_prefix_chars(&t[13..t.len()]) {
        return TokenType::StringDelay;
    }
    if starts_with_str(t, "IF ") {
        return TokenType::If;
    }
    if starts_with_str(t, "}") {
        return TokenType::EndIf;
    }
    if starts_with_str(t, "END_IF") {
        return TokenType::EndIf;
    }
    if starts_with_str(t, "ELSE IF ") {
        return TokenType::ElseIf;
    }
    if starts_with_str(t, "ELSE") {
        return TokenType::Else;
    }
    if starts_with_str(t, "WHILE ") {
        return TokenType::While;
    }
    if starts_with_str(t, "END_WHILE") {
        return TokenType::EndWhile;
    }
    if starts_with_str(t, "STAGE ") {
        return TokenType::Stage;
    }
    if starts_with_str(t, "END_STAGE") {
        return TokenType::EndStage;
    }
    if starts_with_str(t, "EXTENSION ") {
        return TokenType::Extension;
    }
    if starts_with_str(t, "END_EXTENSION") {
        return TokenType::EndExtension;
    }
    if starts_with_str(t, "FUNCTION ") && contains_str(&t[9..t.len()], "()") {
        return TokenType::Function;
    }
    if starts_with_str(t, "END_FUNCTION") {
        return TokenType::EndFunction;
    }
    if starts_with_str(t, "ATTACKMODE ") {
        return TokenType::Attackmode;
    }
    if starts_with_str(t, "RETURN ") {
        return TokenType::Return;
    }
    if is_assignment_chars(t) {
        return TokenType::Assignment;
    }
    if starts_with_str(t, "VAR $") && contains_str(&t[5..t.len()], "= ") {
        return TokenType::Declaration;
    }
    if is_function_call_no_return_chars(t) {
        return TokenType::FunctionCall;
    }
    if starts_with_str(t, "BUTTON_DEF") {
        return TokenType::ButtonDef;
    }
    if starts_with_str(t, "END_BUTTON") {
        return TokenType::EndButtonDef;
    }
    if starts_with_str(t, "DEBUGGER_BREAKPOINT") {
        return TokenType::Breakpoint;
    }
    if starts_with_str(t, "INJECT_BREAKPOINT_LINE_NUMBER") {
        return TokenType::InjectBreakpointLineNumber;
    }
    if starts_with_str(t, "RANDOM_LOWERCASE_LETTER") {
        return TokenType::RandomLowercaseLetter;
    }
    if starts_with_str(t, "RANDOM_UPPERCASE_LETTER") {
        return TokenType::RandomUppercaseLetter;
    }
    if starts_with_str(t, "RANDOM_NUMBER") {
        return TokenType::RandomNumber;
    }
    if starts_with_str(t, "RANDOM_LETTER") {
        return TokenType::RandomLetter;
    }
    if starts_with_str(t, "RANDOM_SPECIAL") {
        return TokenType::RandomSpecial;
    }
    if starts_with_str(t, "RANDOM_CHAR") {
        return TokenType::RandomChar;
    }
    if starts_with_str(t, "RESTORE_HOST_KEYBOARD_LOCK_STATE") {
        return TokenType::Unknown;
    }
    if eq_str(t, "INJECT_MOD") {
        return TokenType::InjectMod;
    }
    if starts_with_str(t, "INJECT_MOD ") {
        return TokenType::InjectMod;
    }
    if starts_with_str(t, "INJECT ") {
        return TokenType::Inject;
    }
    if starts_with_str(t, "KEYCODE ") {
        return TokenType::Keycode;
    }
    if starts_with_str(t, "EXFIL $") {
        return TokenType::ExfilVar;
    }
    if starts_with_str(t, "MOD_KEY_DOWN ") {
        return TokenType::ModKeyDown;
    }
    if starts_with_str(t, "MOD_KEY_UP ") {
        return TokenType::ModKeyUp;
    }
    if starts_with_str(t, "MOD_UP ") {
        return TokenType::ModUp;
    }
    if starts_with_str(t, "KEY_UP ") {
        return TokenType::KeyUp;
    }
    if starts_with_str(t, "KEY_DOWN ") {
        return TokenType::KeyDown;
    }
    if starts_with_str(t, "MOD_DOWN ") {
        return TokenType::ModDown;
    }
    if is_us_modifier_chars(t) {
        return TokenType::Modifier;
    }
    TokenType::Unknown
}

/// The token kind of a line.
pub fn tokenize_line(line: &str) -> (r: TokenType)
    ensures
        r == tokenize_spec(text::trim(line@)),
{
    let c = chars_of(line);
    let t = trim_chars(c.as_slice());
    tokenize_trimmed_chars(t)
}

/// The token kind of a line that is already trimmed.
pub fn tokenize_trimmed(t: &str) -> (r: TokenType)
    ensures
        r == tokenize_spec(t@),
{
    let c = chars_of(t);
    tokenize_trimmed_chars(c.as_slice())
}

} // verus!
