//! Completions: the words an editor offers while a script is typed.
use vstd::prelude::*;

use crate::numbers::{decimal, decimal_chars};
use crate::text::{chars_of, string_of};

verus! {

/// What a completion is.
#[derive(Debug, Clone, Copy, PartialEq, Eq, Structural)]
pub enum CompletionItemKind {
    Keyword,
    Constant,
    Variable,
}

/// A word offered for completion, with its kind and a short description.
#[derive(Debug)]
pub struct CompletionItem {
    pub label: String,
    pub kind: Option<CompletionItemKind>,
    pub detail: Option<String>,
}

impl View for CompletionItem {
    type V = (Seq<char>, Option<CompletionItemKind>, Option<Seq<char>>);

    open spec fn view(&self) -> Self::V {
        (
            self.label@,
            self.kind,
            match self.detail {
                Some(d) => Some(d@),
                None => None,
            },
        )
    }
}

/// The views of a list of completions.
pub open spec fn items_view(v: Seq<CompletionItem>) -> Seq<(Seq<char>, Option<CompletionItemKind>, Option<Seq<char>>)> {
    v.map_values(|c: CompletionItem| c@)
}

/// The views of a table of words and descriptions.
pub open spec fn pairs_view(v: Seq<(&str, &str)>) -> Seq<(Seq<char>, Seq<char>)> {
    v.map_values(|p: (&str, &str)| (p.0@, p.1@))
}

/// The completions of a table, all of one kind.
pub open spec fn entries(t: Seq<(Seq<char>, Seq<char>)>, k: CompletionItemKind) -> Seq<
    (Seq<char>, Option<CompletionItemKind>, Option<Seq<char>>),
> {
    t.map_values(|p: (Seq<char>, Seq<char>)| (p.0, Some(k), Some(p.1)))
}

/// The function keys `F1` to `F12`.
pub open spec fn function_keys() -> Seq<(Seq<char>, Option<CompletionItemKind>, Option<Seq<char>>)> {
    Seq::new(
        12,
        |i: int|
            (
                "F"@ + decimal((i + 1) as nat),
                Some(CompletionItemKind::Constant),
                Some("Function key F"@ + decimal((i + 1) as nat)),
            ),
    )
}

/// The commands, with what each does.
pub open spec fn keyword_table() -> Seq<(Seq<char>, Seq<char>)> {
    seq![
        ("STRING"@, "Type a string of characters"@),
        ("STRINGLN"@, "Type a string followed by ENTER"@),
        ("STRING_BLOCK"@, "Multi-line string block"@),
        ("STRINGLN_BLOCK"@, "Multi-line string block with ENTER"@),
        ("END_STRING"@, "End string block"@),
        ("DELAY"@, "Wait for specified milliseconds"@),
        ("DEFAULT_DELAY"@, "Set default delay between keystrokes"@),
        ("DEFAULTDELAY"@, "Set default delay (alternative)"@),
        ("STRING_DELAY"@, "Set delay between characters in STRING"@),
        ("STRINGDELAY"@, "Set string delay (alternative)"@),
        ("ENTER"@, "Press ENTER key"@),
        ("HOLD"@, "Hold a key down"@),
        ("RELEASE"@, "Release a held key"@),
        ("REPEAT"@, "Repeat previous command N times"@),
        ("IF"@, "Conditional statement"@),
        ("ELSE_IF"@, "Alternative condition"@),
        ("ELSE"@, "Fallback condition"@),
        ("END_IF"@, "End conditional block"@),
        ("WHILE"@, "Loop while condition is true"@),
        ("END_WHILE"@, "End while loop"@),
        ("FUNCTION"@, "Define a function"@),
        ("END_FUNCTION"@, "End function definition"@),
        ("RETURN"@, "Return from function"@),
        ("VAR"@, "Declare a variable"@),
        ("INJECT_VAR"@, "Inject variable value as keystrokes"@),
        ("EXFIL"@, "Exfiltrate data to USB storage"@),
        ("DEFINE"@, "Define a preprocessor constant"@),
        ("IF_DEFINED_TRUE"@, "Conditional compilation if defined"@),
        ("IF_NOT_DEFINED_TRUE"@, "Conditional compilation if not defined"@),
        ("ELSE_DEFINED"@, "Preprocessor else"@),
        ("END_IF_DEFINED"@, "End preprocessor conditional"@),
        ("ATTACKMODE"@, "Configure USB device mode"@),
        ("INJECT"@, "Inject keystrokes"@),
        ("INJECT_MOD"@, "Inject with modifiers"@),
        ("KEYCODE"@, "Send raw keycode"@),
        ("MOD_KEY_DOWN"@, "Press modifier and key"@),
        ("MOD_KEY_UP"@, "Release modifier and key"@),
        ("KEY_DOWN"@, "Press key down"@),
        ("KEY_UP"@, "Release key"@),
        ("MOD_DOWN"@, "Press modifier down"@),
        ("MOD_UP"@, "Release modifier"@),
        ("RANDOM_LOWERCASE_LETTER"@, "Generate random lowercase letter"@),
        ("RANDOM_UPPERCASE_LETTER"@, "Generate random uppercase letter"@),
        ("RANDOM_NUMBER"@, "Generate random digit (0-9)"@),
        ("RANDOM_LETTER"@, "Generate random letter"@),
        ("RANDOM_SPECIAL"@, "Generate random special character"@),
        ("RANDOM_CHAR"@, "Generate random character"@),
        ("EXTENSION"@, "Define payload extension"@),
        ("END_EXTENSION"@, "End extension definition"@),
        ("STAGE"@, "Define staged payload"@),
        ("END_STAGE"@, "End stage definition"@),
        ("BUTTON_DEF"@, "Define button action"@),
        ("END_BUTTON"@, "End button definition"@),
        ("REM"@, "Comment line"@),
        ("REM_BLOCK"@, "Start comment block"@),
        ("END_REM"@, "End comment block"@),
        ("DEBUGGER_BREAKPOINT"@, "Set debugger breakpoint"@),
        ("INJECT_BREAKPOINT_LINE_NUMBER"@, "Inject breakpoint line number"@),
    ]
}

fn keyword_pairs() -> (r: Vec<(&'static str, &'static str)>)
    ensures
        pairs_view(r@) == keyword_table(),
{
    let r = vec![
        ("STRING", "Type a string of characters"),
        ("STRINGLN", "Type a string followed by ENTER"),
        ("STRING_BLOCK", "Multi-line string block"),
        ("STRINGLN_BLOCK", "Multi-line string block with ENTER"),
        ("END_STRING", "End string block"),
        ("DELAY", "Wait for specified milliseconds"),
        ("DEFAULT_DELAY", "Set default delay between keystrokes"),
        ("DEFAULTDELAY", "Set default delay (alternative)"),
        ("STRING_DELAY", "Set delay between characters in STRING"),
        ("STRINGDELAY", "Set string delay (alternative)"),
        ("ENTER", "Press ENTER key"),
        ("HOLD", "Hold a key down"),
        ("RELEASE", "Release a held key"),
        ("REPEAT", "Repeat previous command N times"),
        ("IF", "Conditional statement"),
        ("ELSE_IF", "Alternative condition"),
        ("ELSE", "Fallback condition"),
        ("END_IF", "End conditional block"),
        ("WHILE", "Loop while condition is true"),
        ("END_WHILE", "End while loop"),
        ("FUNCTION", "Define a function"),
        ("END_FUNCTION", "End function definition"),
        ("RETURN", "Return from function"),
        ("VAR", "Declare a variable"),
        ("INJECT_VAR", "Inject variable value as keystrokes"),
        ("EXFIL", "Exfiltrate data to USB storage"),
        ("DEFINE", "Define a preprocessor constant"),
        ("IF_DEFINED_TRUE", "Conditional compilation if defined"),
        ("IF_NOT_DEFINED_TRUE", "Conditional compilation if not defined"),
        ("ELSE_DEFINED", "Preprocessor else"),
        ("END_IF_DEFINED", "End preprocessor conditional"),
        ("ATTACKMODE", "Configure USB device mode"),
        ("INJECT", "Inject keystrokes"),
        ("INJECT_MOD", "Inject with modifiers"),
        ("KEYCODE", "Send raw keycode"),
        ("MOD_KEY_DOWN", "Press modifier and key"),
        ("MOD_KEY_UP", "Release modifier and key"),
        ("KEY_DOWN", "Press key down"),
        ("KEY_UP", "Release key"),
        ("MOD_DOWN", "Press modifier down"),
        ("MOD_UP", "Release modifier"),
        ("RANDOM_LOWERCASE_LETTER", "Generate random lowercase letter"),
        ("RANDOM_UPPERCASE_LETTER", "Generate random uppercase letter"),
        ("RANDOM_NUMBER", "Generate random digit (0-9)"),
        ("RANDOM_LETTER", "Generate random letter"),
        ("RANDOM_SPECIAL", "Generate random special character"),
        ("RANDOM_CHAR", "Generate random character"),
        ("EXTENSION", "Define payload extension"),
        ("END_EXTENSION", "End extension definition"),
        ("STAGE", "Define staged payload"),
        ("END_STAGE", "End stage definition"),
        ("BUTTON_DEF", "Define button action"),
        ("END_BUTTON", "End button definition"),
        ("REM", "Comment line"),
        ("REM_BLOCK", "Start comment block"),
        ("END_REM", "End comment block"),
        ("DEBUGGER_BREAKPOINT", "Set debugger breakpoint"),
        ("INJECT_BREAKPOINT_LINE_NUMBER", "Inject breakpoint line number"),
    ];
    assert(pairs_view(r@) =~= keyword_table());
    r
}

/// The modifier keys.
pub open spec fn modifier_table() -> Seq<(Seq<char>, Seq<char>)> {
    seq![
        ("CTRL"@, "Control modifier key"@),
        ("CONTROL"@, "Control modifier key (alternative)"@),
        ("SHIFT"@, "Shift modifier key"@),
        ("ALT"@, "Alt modifier key"@),
        ("GUI"@, "GUI/Windows/Command key"@),
        ("WINDOWS"@, "Windows key"@),
        ("COMMAND"@, "Command key (Mac)"@),
        ("CTRL-ALT"@, "Ctrl+Alt combination"@),
    ]
}

fn modifier_pairs() -> (r: Vec<(&'static str, &'static str)>)
    ensures
        pairs_view(r@) == modifier_table(),
{
    let r = vec![
        ("CTRL", "Control modifier key"),
        ("CONTROL", "Control modifier key (alternative)"),
        ("SHIFT", "Shift modifier key"),
        ("ALT", "Alt modifier key"),
        ("GUI", "GUI/Windows/Command key"),
        ("WINDOWS", "Windows key"),
        ("COMMAND", "Command key (Mac)"),
        ("CTRL-ALT", "Ctrl+Alt combination"),
    ];
    assert(pairs_view(r@) =~= modifier_table());
    r
}

/// The named special keys.
pub open spec fn special_key_table() -> Seq<(Seq<char>, Seq<char>)> {
    seq![
        ("ESCAPE"@, "Escape key"@),
        ("ESC"@, "Escape key (short)"@),
        ("TAB"@, "Tab key"@),
        ("CAPSLOCK"@, "Caps Lock key"@),
        ("PRINTSCREEN"@, "Print Screen key"@),
        ("SCROLLLOCK"@, "Scroll Lock key"@),
        ("PAUSE"@, "Pause key"@),
        ("BREAK"@, "Break key"@),
        ("INSERT"@, "Insert key"@),
        ("HOME"@, "Home key"@),
        ("PAGEUP"@, "Page Up key"@),
        ("PAGEDOWN"@, "Page Down key"@),
        ("DELETE"@, "Delete key"@),
        ("END"@, "End key"@),
        ("UP"@, "Up arrow"@),
        ("DOWN"@, "Down arrow"@),
        ("LEFT"@, "Left arrow"@),
        ("RIGHT"@, "Right arrow"@),
        ("UPARROW"@, "Up arrow (alternative)"@),
        ("DOWNARROW"@, "Down arrow (alternative)"@),
        ("LEFTARROW"@, "Left arrow (alternative)"@),
        ("RIGHTARROW"@, "Right arrow (alternative)"@),
        ("SPACE"@, "Space bar"@),
        ("BACKSPACE"@, "Backspace key"@),
        ("APP"@, "Application/Menu key"@),
        ("MENU"@, "Menu key"@),
    ]
}

fn special_key_pairs() -> (r: Vec<(&'static str, &'static str)>)
    ensures
        pairs_view(r@) == special_key_table(),
{
    let r = vec![
        ("ESCAPE", "Escape key"),
        ("ESC", "Escape key (short)"),
        ("TAB", "Tab key"),
        ("CAPSLOCK", "Caps Lock key"),
        ("PRINTSCREEN", "Print Screen key"),
        ("SCROLLLOCK", "Scroll Lock key"),
        ("PAUSE", "Pause key"),
        ("BREAK", "Break key"),
        ("INSERT", "Insert key"),
        ("HOME", "Home key"),
        ("PAGEUP", "Page Up key"),
        ("PAGEDOWN", "Page Down key"),
        ("DELETE", "Delete key"),
        ("END", "End key"),
        ("UP", "Up arrow"),
        ("DOWN", "Down arrow"),
        ("LEFT", "Left arrow"),
        ("RIGHT", "Right arrow"),
        ("UPARROW", "Up arrow (alternative)"),
        ("DOWNARROW", "Down arrow (alternative)"),
        ("LEFTARROW", "Left arrow (alternative)"),
        ("RIGHTARROW", "Right arrow (alternative)"),
        ("SPACE", "Space bar"),
        ("BACKSPACE", "Backspace key"),
        ("APP", "Application/Menu key"),
        ("MENU", "Menu key"),
    ];
    assert(pairs_view(r@) =~= special_key_table());
    r
}

/// The keys of the numeric keypad.
pub open spec fn numpad_table() -> Seq<(Seq<char>, Seq<char>)> {
    seq![
        ("NUM_LOCK"@, "Num Lock key"@),
        ("NUMLOCK"@, "Num Lock (alternative)"@),
        ("KP_0"@, "Numpad 0"@),
        ("KP_1"@, "Numpad 1"@),
        ("KP_2"@, "Numpad 2"@),
        ("KP_3"@, "Numpad 3"@),
        ("KP_4"@, "Numpad 4"@),
        ("KP_5"@, "Numpad 5"@),
        ("KP_6"@, "Numpad 6"@),
        ("KP_7"@, "Numpad 7"@),
        ("KP_8"@, "Numpad 8"@),
        ("KP_9"@, "Numpad 9"@),
        ("KP_PLUS"@, "Numpad +"@),
        ("KP_MINUS"@, "Numpad -"@),
        ("KP_MULTIPLY"@, "Numpad *"@),
        ("KP_DIVIDE"@, "Numpad /"@),
        ("KP_ENTER"@, "Numpad Enter"@),
        ("KP_DOT"@, "Numpad ."@),
    ]
}

fn numpad_pairs() -> (r: Vec<(&'static str, &'static str)>)
    ensures
        pairs_view(r@) == numpad_table(),
{
    let r = vec![
        ("NUM_LOCK", "Num Lock key"),
        ("NUMLOCK", "Num Lock (alternative)"),
        ("KP_0", "Numpad 0"),
        ("KP_1", "Numpad 1"),
        ("KP_2", "Numpad 2"),
        ("KP_3", "Numpad 3"),
        ("KP_4", "Numpad 4"),
        ("KP_5", "Numpad 5"),
        ("KP_6", "Numpad 6"),
        ("KP_7", "Numpad 7"),
        ("KP_8", "Numpad 8"),
        ("KP_9", "Numpad 9"),
        ("KP_PLUS", "Numpad +"),
        ("KP_MINUS", "Numpad -"),
        ("KP_MULTIPLY", "Numpad *"),
        ("KP_DIVIDE", "Numpad /"),
        ("KP_ENTER", "Numpad Enter"),
        ("KP_DOT", "Numpad ."),
    ];
    assert(pairs_view(r@) =~= numpad_table());
    r
}

/// The variables the device sets.
pub open spec fn reserved_variable_table() -> Seq<(Seq<char>, Seq<char>)> {
    seq![
        ("$_HOST_OS"@, "Detected host operating system"@),
        ("$_CAPSLOCK_ON"@, "CAPS LOCK state (TRUE/FALSE)"@),
        ("$_NUMLOCK_ON"@, "NUM LOCK state (TRUE/FALSE)"@),
        ("$_SCROLLLOCK_ON"@, "SCROLL LOCK state (TRUE/FALSE)"@),
        ("$_GUI_LABEL"@, "System-specific GUI key name"@),
        ("$_CURRENT_PATH"@, "Current working directory"@),
        ("$_EXFIL_LABEL"@, "USB storage drive label"@),
        ("$_f_ret"@, "Function return value"@),
        ("$_RANDOM_INT"@, "Random integer"@),
        ("$_RANDOM_MIN"@, "Minimum value for random int"@),
        ("$_RANDOM_MAX"@, "Maximum value for random int"@),
    ]
}

fn reserved_variable_pairs() -> (r: Vec<(&'static str, &'static str)>)
    ensures
        pairs_view(r@) == reserved_variable_table(),
{
    let r = vec![
        ("$_HOST_OS", "Detected host operating system"),
        ("$_CAPSLOCK_ON", "CAPS LOCK state (TRUE/FALSE)"),
        ("$_NUMLOCK_ON", "NUM LOCK state (TRUE/FALSE)"),
        ("$_SCROLLLOCK_ON", "SCROLL LOCK state (TRUE/FALSE)"),
        ("$_GUI_LABEL", "System-specific GUI key name"),
        ("$_CURRENT_PATH", "Current working directory"),
        ("$_EXFIL_LABEL", "USB storage drive label"),
        ("$_f_ret", "Function return value"),
        ("$_RANDOM_INT", "Random integer"),
        ("$_RANDOM_MIN", "Minimum value for random int"),
        ("$_RANDOM_MAX", "Maximum value for random int"),
    ];
    assert(pairs_view(r@) =~= reserved_variable_table());
    r
}


proof fn lemma_items_push(v: Seq<CompletionItem>, c: CompletionItem)
    ensures
        items_view(v.push(c)) == items_view(v).push(c@),
{
    assert(items_view(v.push(c)) =~= items_view(v).push(c@));
}

/// Appends the completions of a table, all of kind `kind`.
fn push_items(items: &mut Vec<CompletionItem>, pairs: &Vec<(&'static str, &'static str)>, kind: CompletionItemKind)
    ensures
        items_view(final(items)@) == items_view(old(items)@) + entries(pairs_view(pairs@), kind),
{
    let mut k: usize = 0;
    while k < pairs.len()
        invariant
            k <= pairs@.len(),
            items_view(items@) == items_view(old(items)@) + entries(pairs_view(pairs@), kind).take(
                k as int,
            ),
        decreases pairs@.len() - k,
    {
        let (label, detail) = pairs[k];
        let c = CompletionItem {
            label: label.to_owned(),
            kind: Some(kind),
            detail: Some(detail.to_owned()),
        };
        proof {
            lemma_items_push(items@, c);
        }
        items.push(c);
        k = k + 1;
        assert(items_view(items@) =~= items_view(old(items)@) + entries(
            pairs_view(pairs@),
            kind,
        ).take(k as int));
    }
    assert(entries(pairs_view(pairs@), kind).take(k as int) =~= entries(pairs_view(pairs@), kind));
}

/// The command words, each with what it does.
pub fn get_keyword_completions() -> (r: Vec<CompletionItem>)
    ensures
        items_view(r@) == entries(keyword_table(), CompletionItemKind::Keyword),
{
    let mut items: Vec<CompletionItem> = Vec::new();
    push_items(&mut items, &keyword_pairs(), CompletionItemKind::Keyword);
    assert(items_view(items@) =~= entries(keyword_table(), CompletionItemKind::Keyword));
    items
}

/// The modifier keys.
pub fn get_modifier_completions() -> (r: Vec<CompletionItem>)
    ensures
        items_view(r@) == entries(modifier_table(), CompletionItemKind::Constant),
{
    let mut items: Vec<CompletionItem> = Vec::new();
    push_items(&mut items, &modifier_pairs(), CompletionItemKind::Constant);
    assert(items_view(items@) =~= entries(modifier_table(), CompletionItemKind::Constant));
    items
}

/// The special keys: `F1` to `F12`, the named keys and the keypad.
pub fn get_special_key_completions() -> (r: Vec<CompletionItem>)
    ensures
        items_view(r@) == function_keys() + entries(special_key_table(), CompletionItemKind::Constant)
            + entries(numpad_table(), CompletionItemKind::Constant),
{
    let mut items: Vec<CompletionItem> = Vec::new();
    let mut i: u128 = 1;
    while i <= 12
        invariant
            1 <= i <= 13,
            items_view(items@) == function_keys().take(i - 1),
        decreases 13 - i,
    {
        let digits = decimal_chars(i);
        let mut label = chars_of("F");
        let mut detail = chars_of("Function key F");
        let mut k: usize = 0;
        let ghost l0 = label@;
        let ghost d0 = detail@;
        while k < digits.len()
            invariant
                k <= digits@.len(),
                label@ == l0 + digits@.take(k as int),
                detail@ == d0 + digits@.take(k as int),
            decreases digits@.len() - k,
        {
            label.push(digits[k]);
            detail.push(digits[k]);
            k = k + 1;
            assert(label@ =~= l0 + digits@.take(k as int));
            assert(detail@ =~= d0 + digits@.take(k as int));
        }
        assert(digits@.take(k as int) =~= digits@);
        let c = CompletionItem {
            label: string_of(label.as_slice()),
            kind: Some(CompletionItemKind::Constant),
            detail: Some(string_of(detail.as_slice())),
        };
        proof {
            lemma_items_push(items@, c);
        }
        items.push(c);
        assert(items_view(items@) =~= function_keys().take(i as int));
        i = i + 1;
    }
    assert(function_keys().take(12) =~= function_keys());
    push_items(&mut items, &special_key_pairs(), CompletionItemKind::Constant);
    push_items(&mut items, &numpad_pairs(), CompletionItemKind::Constant);
    items
}

/// The variables the device sets.
pub fn get_reserved_variable_completions() -> (r: Vec<CompletionItem>)
    ensures
        items_view(r@) == entries(reserved_variable_table(), CompletionItemKind::Variable),
{
    let mut items: Vec<CompletionItem> = Vec::new();
    push_items(&mut items, &reserved_variable_pairs(), CompletionItemKind::Variable);
    assert(items_view(items@) =~= entries(reserved_variable_table(), CompletionItemKind::Variable));
    items
}

} // verus!
