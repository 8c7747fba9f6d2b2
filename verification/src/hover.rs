//! Hover text: the documentation an editor shows for a command or a
//! variable under the pointer.
use vstd::prelude::*;

use crate::lexer::{tokenize_spec, tokenize_trimmed_chars, TokenType};
use crate::text::{self, chars_of, eq_str, trim_chars};
use crate::text_edit::Position;

verus! {

/// Documentation to show, as Markdown.
#[derive(Debug)]
pub struct Hover {
    pub markdown: String,
}

/// The documentation shown for a line's command.
pub open spec fn hover_doc(t: TokenType) -> Option<Seq<char>> {
    match t {
        TokenType::String => Some("**STRING** - Type a string of characters\n\nExample: `STRING Hello World`"@),
        TokenType::StringLn => Some("**STRINGLN** - Type a string followed by ENTER\n\nExample: `STRINGLN Hello World`"@),
        TokenType::Delay => Some("**DELAY** - Wait for specified milliseconds\n\nExample: `DELAY 1000`"@),
        TokenType::DefaultDelay => Some("**DEFAULT_DELAY** - Set default delay between keystrokes\n\nExample: `DEFAULT_DELAY 50`"@),
        TokenType::Enter => Some("**ENTER** - Press the Enter/Return key\n\nExample: `ENTER`"@),
        TokenType::Hold => Some("**HOLD** - Hold a key down\n\nExample: `HOLD SHIFT`"@),
        TokenType::Release => Some("**RELEASE** - Release a held key\n\nExample: `RELEASE SHIFT`"@),
        TokenType::Repeat => Some("**REPEAT** - Repeat the previous command N times\n\nExample: `REPEAT 5`"@),
        TokenType::If => Some("**IF** - Conditional statement\n\nExample:\n```duckyscript\nIF $var == 1 THEN\n    STRING true\nEND_IF\n```"@),
        TokenType::While => Some("**WHILE** - Loop statement\n\nExample:\n```duckyscript\nWHILE $count < 10\n    STRING loop\nEND_WHILE\n```"@),
        TokenType::Function => Some("**FUNCTION** - Define a reusable function\n\nExample:\n```duckyscript\nFUNCTION myFunc()\n    STRING called\nEND_FUNCTION\n```"@),
        TokenType::Declaration => Some("**VAR** - Declare and assign a variable\n\nExample: `VAR $myVar = 123`"@),
        TokenType::InjectVar => Some("**INJECT_VAR** - Inject variable value as keystrokes\n\nExample: `INJECT_VAR $myVar`"@),
        TokenType::ExfilVar => Some("**EXFIL** - Exfiltrate data to USB storage\n\nExample: `EXFIL $data`"@),
        TokenType::Attackmode => Some("**ATTACKMODE** - Configure USB device mode\n\nExample: `ATTACKMODE HID STORAGE`\n\nModes:\n- HID (keyboard)\n- STORAGE (USB drive)\n- SERIAL (CDC ACM)\n- VID/PID configuration"@),
        TokenType::RandomLowercaseLetter => Some("**RANDOM_LOWERCASE_LETTER** - Generate random lowercase letter\n\nExample: `VAR $letter = RANDOM_LOWERCASE_LETTER`"@),
        TokenType::RandomUppercaseLetter => Some("**RANDOM_UPPERCASE_LETTER** - Generate random uppercase letter\n\nExample: `VAR $letter = RANDOM_UPPERCASE_LETTER`"@),
        TokenType::RandomNumber => Some("**RANDOM_NUMBER** - Generate random digit (0-9)\n\nExample: `VAR $num = RANDOM_NUMBER`"@),
        TokenType::ModKeyDown => Some("**MOD_KEY_DOWN** - Press modifier and key simultaneously\n\nExample: `MOD_KEY_DOWN CTRL c`"@),
        TokenType::KeyDown => Some("**KEY_DOWN** - Press key down (hold)\n\nExample: `KEY_DOWN SHIFT`"@),
        TokenType::KeyUp => Some("**KEY_UP** - Release key\n\nExample: `KEY_UP SHIFT`"@),
        TokenType::Define => Some("**DEFINE** - Define a preprocessor constant\n\nExample: `DEFINE DEBUG_MODE`"@),
        TokenType::IfDefined => Some("**IF_DEFINED** - Conditional compilation\n\nExample:\n```duckyscript\nIF_DEFINED DEBUG_MODE\n    STRING Debug enabled\nEND_IF_DEFINED\n```"@),
        TokenType::Extension => Some("**EXTENSION** - Define payload extension\n\nExample:\n```duckyscript\nEXTENSION myExt\n    STRING extension code\nEND_EXTENSION\n```"@),
        TokenType::Stage => Some("**STAGE** - Define staged payload\n\nExample:\n```duckyscript\nSTAGE 1\n    STRING first stage\nEND_STAGE\n```"@),
        TokenType::Rem => Some("**REM** - Comment line (not executed)\n\nExample: `REM This is a comment`"@),
        TokenType::RemBlock => Some("**REM_BLOCK** - Multi-line comment block\n\nExample:\n```duckyscript\nREM_BLOCK\nMultiple lines\nof comments\nEND_REM\n```"@),
        _ => None,
    }
}

/// The documentation shown for a variable the device sets.
pub open spec fn variable_doc(name: Seq<char>) -> Option<Seq<char>> {
    if name == "$_HOST_OS"@ {
        Some("**$_HOST_OS** - Detected host operating system\n\nValues: `WINDOWS`, `MACOS`, `LINUX`, `UNKNOWN`"@)
    } else if name == "$_CAPSLOCK_ON"@ {
        Some("**$_CAPSLOCK_ON** - CAPS LOCK state\n\nValues: `TRUE`, `FALSE`"@)
    } else if name == "$_NUMLOCK_ON"@ {
        Some("**$_NUMLOCK_ON** - NUM LOCK state\n\nValues: `TRUE`, `FALSE`"@)
    } else if name == "$_SCROLLLOCK_ON"@ {
        Some("**$_SCROLLLOCK_ON** - SCROLL LOCK state\n\nValues: `TRUE`, `FALSE`"@)
    } else if name == "$_GUI_LABEL"@ {
        Some("**$_GUI_LABEL** - System-specific GUI key name\n\nExamples: `WINDOWS`, `COMMAND`, `GUI`"@)
    } else if name == "$_CURRENT_PATH"@ {
        Some("**$_CURRENT_PATH** - Current working directory path"@)
    } else if name == "$_EXFIL_LABEL"@ {
        Some("**$_EXFIL_LABEL** - USB storage drive label for exfiltration"@)
    } else if name == "$_f_ret"@ {
        Some("**$_f_ret** - Function return value\n\nUsed internally to return values from functions"@)
    } else {
        None
    }
}

/// The documentation for the command on `line`, if it has any.
pub fn get_hover_info(line: &str, _position: Position) -> (r: Option<Hover>)
    ensures
        match r {
            Some(h) => hover_doc(tokenize_spec(text::trim(text::trim(line@)))) == Some(h.markdown@),
            None => hover_doc(tokenize_spec(text::trim(text::trim(line@)))) is None,
        },
{
    let c = chars_of(line);
    let t = tokenize_trimmed_chars(trim_chars(trim_chars(c.as_slice())));
    let doc: Option<&'static str> = match t {
        TokenType::String => Some("**STRING** - Type a string of characters\n\nExample: `STRING Hello World`"),
        TokenType::StringLn => Some("**STRINGLN** - Type a string followed by ENTER\n\nExample: `STRINGLN Hello World`"),
        TokenType::Delay => Some("**DELAY** - Wait for specified milliseconds\n\nExample: `DELAY 1000`"),
        TokenType::DefaultDelay => Some("**DEFAULT_DELAY** - Set default delay between keystrokes\n\nExample: `DEFAULT_DELAY 50`"),
        TokenType::Enter => Some("**ENTER** - Press the Enter/Return key\n\nExample: `ENTER`"),
        TokenType::Hold => Some("**HOLD** - Hold a key down\n\nExample: `HOLD SHIFT`"),
        TokenType::Release => Some("**RELEASE** - Release a held key\n\nExample: `RELEASE SHIFT`"),
        TokenType::Repeat => Some("**REPEAT** - Repeat the previous command N times\n\nExample: `REPEAT 5`"),
        TokenType::If => Some("**IF** - Conditional statement\n\nExample:\n```duckyscript\nIF $var == 1 THEN\n    STRING true\nEND_IF\n```"),
        TokenType::While => Some("**WHILE** - Loop statement\n\nExample:\n```duckyscript\nWHILE $count < 10\n    STRING loop\nEND_WHILE\n```"),
        TokenType::Function => Some("**FUNCTION** - Define a reusable function\n\nExample:\n```duckyscript\nFUNCTION myFunc()\n    STRING called\nEND_FUNCTION\n```"),
        TokenType::Declaration => Some("**VAR** - Declare and assign a variable\n\nExample: `VAR $myVar = 123`"),
        TokenType::InjectVar => Some("**INJECT_VAR** - Inject variable value as keystrokes\n\nExample: `INJECT_VAR $myVar`"),
        TokenType::ExfilVar => Some("**EXFIL** - Exfiltrate data to USB storage\n\nExample: `EXFIL $data`"),
        TokenType::Attackmode => Some("**ATTACKMODE** - Configure USB device mode\n\nExample: `ATTACKMODE HID STORAGE`\n\nModes:\n- HID (keyboard)\n- STORAGE (USB drive)\n- SERIAL (CDC ACM)\n- VID/PID configuration"),
        TokenType::RandomLowercaseLetter => Some("**RANDOM_LOWERCASE_LETTER** - Generate random lowercase letter\n\nExample: `VAR $letter = RANDOM_LOWERCASE_LETTER`"),
        TokenType::RandomUppercaseLetter => Some("**RANDOM_UPPERCASE_LETTER** - Generate random uppercase letter\n\nExample: `VAR $letter = RANDOM_UPPERCASE_LETTER`"),
        TokenType::RandomNumber => Some("**RANDOM_NUMBER** - Generate random digit (0-9)\n\nExample: `VAR $num = RANDOM_NUMBER`"),
        TokenType::ModKeyDown => Some("**MOD_KEY_DOWN** - Press modifier and key simultaneously\n\nExample: `MOD_KEY_DOWN CTRL c`"),
        TokenType::KeyDown => Some("**KEY_DOWN** - Press key down (hold)\n\nExample: `KEY_DOWN SHIFT`"),
        TokenType::KeyUp => Some("**KEY_UP** - Release key\n\nExample: `KEY_UP SHIFT`"),
        TokenType::Define => Some("**DEFINE** - Define a preprocessor constant\n\nExample: `DEFINE DEBUG_MODE`"),
        TokenType::IfDefined => Some("**IF_DEFINED** - Conditional compilation\n\nExample:\n```duckyscript\nIF_DEFINED DEBUG_MODE\n    STRING Debug enabled\nEND_IF_DEFINED\n```"),
        TokenType::Extension => Some("**EXTENSION** - Define payload extension\n\nExample:\n```duckyscript\nEXTENSION myExt\n    STRING extension code\nEND_EXTENSION\n```"),
        TokenType::Stage => Some("**STAGE** - Define staged payload\n\nExample:\n```duckyscript\nSTAGE 1\n    STRING first stage\nEND_STAGE\n```"),
        TokenType::Rem => Some("**REM** - Comment line (not executed)\n\nExample: `REM This is a comment`"),
        TokenType::RemBlock => Some("**REM_BLOCK** - Multi-line comment block\n\nExample:\n```duckyscript\nREM_BLOCK\nMultiple lines\nof comments\nEND_REM\n```"),
        _ => None,
    };
    match doc {
        Some(d) => Some(Hover { markdown: d.to_owned() }),
        None => None,
    }
}

/// The documentation for a variable the device sets, if `var_name` is one.
pub fn get_variable_hover(var_name: &str) -> (r: Option<Hover>)
    ensures
        match r {
            Some(h) => variable_doc(var_name@) == Some(h.markdown@),
            None => variable_doc(var_name@) is None,
        },
{
    let n = chars_of(var_name);
    let doc: Option<&'static str> = if eq_str(n.as_slice(), "$_HOST_OS") {
        Some("**$_HOST_OS** - Detected host operating system\n\nValues: `WINDOWS`, `MACOS`, `LINUX`, `UNKNOWN`")
    } else if eq_str(n.as_slice(), "$_CAPSLOCK_ON") {
        Some("**$_CAPSLOCK_ON** - CAPS LOCK state\n\nValues: `TRUE`, `FALSE`")
    } else if eq_str(n.as_slice(), "$_NUMLOCK_ON") {
        Some("**$_NUMLOCK_ON** - NUM LOCK state\n\nValues: `TRUE`, `FALSE`")
    } else if eq_str(n.as_slice(), "$_SCROLLLOCK_ON") {
        Some("**$_SCROLLLOCK_ON** - SCROLL LOCK state\n\nValues: `TRUE`, `FALSE`")
    } else if eq_str(n.as_slice(), "$_GUI_LABEL") {
        Some("**$_GUI_LABEL** - System-specific GUI key name\n\nExamples: `WINDOWS`, `COMMAND`, `GUI`")
    } else if eq_str(n.as_slice(), "$_CURRENT_PATH") {
        Some("**$_CURRENT_PATH** - Current working directory path")
    } else if eq_str(n.as_slice(), "$_EXFIL_LABEL") {
        Some("**$_EXFIL_LABEL** - USB storage drive label for exfiltration")
    } else if eq_str(n.as_slice(), "$_f_ret") {
        Some("**$_f_ret** - Function return value\n\nUsed internally to return values from functions")
    } else {
        None
    };
    match doc {
        Some(d) => Some(Hover { markdown: d.to_owned() }),
        None => None,
    }
}

} // verus!
