//! The numeric codes of operators, reserved variables, reserved constants
//! and built-in commands.
use vstd::prelude::*;

use crate::text::eq_str;


verus! {

/// The largest payload, in bytes, that the compiler accepts.
pub const MAX_PAYLOAD_SIZE: usize = 16384;

/// The code of an expression operator.
pub open spec fn operator_code(w: Seq<char>) -> Option<u16> {
    if w == "+"@ {
        Some(0x02E8)
    } else if w == "-"@ {
        Some(0x03E8)
    } else if w == "*"@ {
        Some(0x04E8)
    } else if w == "/"@ {
        Some(0x05E8)
    } else if w == "=="@ {
        Some(0x06E8)
    } else if w == "!="@ {
        Some(0x07E8)
    } else if w == "<"@ {
        Some(0x08E8)
    } else if w == ">"@ {
        Some(0x09E8)
    } else if w == "<="@ {
        Some(0xA8E8)
    } else if w == ">="@ {
        Some(0xA9E8)
    } else if w == "&&"@ {
        Some(0xAAE8)
    } else if w == "AND"@ {
        Some(0xAAE8)
    } else if w == "||"@ {
        Some(0xBBE8)
    } else if w == "OR"@ {
        Some(0xBBE8)
    } else if w == "&"@ {
        Some(0x0AE8)
    } else if w == "|"@ {
        Some(0x0BE8)
    } else if w == ">>"@ {
        Some(0x0CE8)
    } else if w == "<<"@ {
        Some(0x0DE8)
    } else if w == "%"@ {
        Some(0x0EE8)
    } else if w == "^"@ {
        Some(0xE80F)
    } else {
        None
    }
}

pub fn operator_code_of(w: &[char]) -> (r: Option<u16>)
    ensures
        r == operator_code(w@),
{
    if eq_str(w, "+") {
        return Some(0x02E8);
    }
    if eq_str(w, "-") {
        return Some(0x03E8);
    }
    if eq_str(w, "*") {
        return Some(0x04E8);
    }
    if eq_str(w, "/") {
        return Some(0x05E8);
    }
    if eq_str(w, "==") {
        return Some(0x06E8);
    }
    if eq_str(w, "!=") {
        return Some(0x07E8);
    }
    if eq_str(w, "<") {
        return Some(0x08E8);
    }
    if eq_str(w, ">") {
        return Some(0x09E8);
    }
    if eq_str(w, "<=") {
        return Some(0xA8E8);
    }
    if eq_str(w, ">=") {
        return Some(0xA9E8);
    }
    if eq_str(w, "&&") {
        return Some(0xAAE8);
    }
    if eq_str(w, "AND") {
        return Some(0xAAE8);
    }
    if eq_str(w, "||") {
        return Some(0xBBE8);
    }
    if eq_str(w, "OR") {
        return Some(0xBBE8);
    }
    if eq_str(w, "&") {
        return Some(0x0AE8);
    }
    if eq_str(w, "|") {
        return Some(0x0BE8);
    }
    if eq_str(w, ">>") {
        return Some(0x0CE8);
    }
    if eq_str(w, "<<") {
        return Some(0x0DE8);
    }
    if eq_str(w, "%") {
        return Some(0x0EE8);
    }
    if eq_str(w, "^") {
        return Some(0xE80F);
    }
    None
}

/// The address of a reserved (system) variable.
pub open spec fn reserved_variable_code(w: Seq<char>) -> Option<u16> {
    if w == "$_BUTTON_ENABLED"@ {
        Some(0x4280)
    } else if w == "$_BUTTON_USER_DEFINED"@ {
        Some(0x4281)
    } else if w == "$_BUTTON_PUSH_RECEIVED"@ {
        Some(0x4284)
    } else if w == "$_LED_SHOW_STORAGE_ACTIVITY"@ {
        Some(0x4285)
    } else if w == "$_SYSTEM_LEDS_ENABLED"@ {
        Some(0x4286)
    } else if w == "$_STORAGE_LEDS_ENABLED"@ {
        Some(0x4287)
    } else if w == "$_INJECTING_LEDS_ENABLED"@ {
        Some(0x4288)
    } else if w == "$_EXFIL_LEDS_ENABLED"@ {
        Some(0x4289)
    } else if w == "$_CAPSLOCK_ON"@ {
        Some(0x4290)
    } else if w == "$_NUMLOCK_ON"@ {
        Some(0x4291)
    } else if w == "$_SCROLLLOCK_ON"@ {
        Some(0x4292)
    } else if w == "$_SAVED_CAPSLOCK_ON"@ {
        Some(0x4293)
    } else if w == "$_SAVED_NUMLOCK_ON"@ {
        Some(0x4294)
    } else if w == "$_SAVED_SCROLLLOCK_ON"@ {
        Some(0x4295)
    } else if w == "$_RECEIVED_HOST_LOCK_LED_REPLY"@ {
        Some(0x4296)
    } else if w == "$_EXFIL_MODE_ENABLED"@ {
        Some(0x4297)
    } else if w == "$_STORAGE_ACTIVITY_TIMEOUT"@ {
        Some(0x4298)
    } else if w == "$_BUTTON_TIMEOUT"@ {
        Some(0x4299)
    } else if w == "$_PAYLOAD_PARSE_SPEED"@ {
        Some(0x429A)
    } else if w == "$_CURRENT_VID"@ {
        Some(0x429B)
    } else if w == "$_CURRENT_PID"@ {
        Some(0x429C)
    } else if w == "$_OS"@ {
        Some(0x429D)
    } else if w == "$_HOST_CONFIGURATION_REQUEST_COUNT"@ {
        Some(0x429F)
    } else if w == "$_CURRENT_ATTACKMODE"@ {
        Some(0x42A0)
    } else if w == "$_JITTER_ENABLED"@ {
        Some(0x42A2)
    } else if w == "$_JITTER_MAX"@ {
        Some(0x42A3)
    } else if w == "$_STORAGE_ACTIVE"@ {
        Some(0x42A4)
    } else if w == "$_RANDOM_INT"@ {
        Some(0x42A8)
    } else if w == "$_RANDOM_MIN"@ {
        Some(0x42F0)
    } else if w == "$_RANDOM_MAX"@ {
        Some(0x42F1)
    } else if w == "$_RANDOM_SEED"@ {
        Some(0x42F2)
    } else if w == "$_RANDOM_UINT16"@ {
        Some(0x42F3)
    } else if w == "$_RANDOM_ASCII_LOWER_LETTER"@ {
        Some(0x42F4)
    } else if w == "$_RANDOM_ASCII_UPPER_LETTER"@ {
        Some(0x42F5)
    } else if w == "$_RANDOM_ASCII_LETTER"@ {
        Some(0x42F6)
    } else if w == "$_RANDOM_ASCII_NUMBER"@ {
        Some(0x42F7)
    } else if w == "$_RANDOM_ASCII_SPECIAL"@ {
        Some(0x42F8)
    } else if w == "$_RANDOM_ASCII_CHAR"@ {
        Some(0x42F9)
    } else if w == "$_RANDOM_LOWER_LETTER_KEYCODE"@ {
        Some(0x42FA)
    } else if w == "$_RANDOM_UPPER_LETTER_KEYCODE"@ {
        Some(0x42FB)
    } else if w == "$_RANDOM_LETTER_KEYCODE"@ {
        Some(0x42FF)
    } else if w == "$_RANDOM_NUMBER_KEYCODE"@ {
        Some(0x42FC)
    } else if w == "$_RANDOM_SPECIAL_KEYCODE"@ {
        Some(0x42FD)
    } else if w == "$_RANDOM_CHAR_KEYCODE"@ {
        Some(0x42FE)
    } else {
        None
    }
}

pub fn reserved_variable_code_of(w: &[char]) -> (r: Option<u16>)
    ensures
        r == reserved_variable_code(w@),
{
    if eq_str(w, "$_BUTTON_ENABLED") {
        return Some(0x4280);
    }
    if eq_str(w, "$_BUTTON_USER_DEFINED") {
        return Some(0x4281);
    }
    if eq_str(w, "$_BUTTON_PUSH_RECEIVED") {
        return Some(0x4284);
    }
    if eq_str(w, "$_LED_SHOW_STORAGE_ACTIVITY") {
        return Some(0x4285);
    }
    if eq_str(w, "$_SYSTEM_LEDS_ENABLED") {
        return Some(0x4286);
    }
    if eq_str(w, "$_STORAGE_LEDS_ENABLED") {
        return Some(0x4287);
    }
    if eq_str(w, "$_INJECTING_LEDS_ENABLED") {
        return Some(0x4288);
    }
    if eq_str(w, "$_EXFIL_LEDS_ENABLED") {
        return Some(0x4289);
    }
    if eq_str(w, "$_CAPSLOCK_ON") {
        return Some(0x4290);
    }
    if eq_str(w, "$_NUMLOCK_ON") {
        return Some(0x4291);
    }
    if eq_str(w, "$_SCROLLLOCK_ON") {
        return Some(0x4292);
    }
    if eq_str(w, "$_SAVED_CAPSLOCK_ON") {
        return Some(0x4293);
    }
    if eq_str(w, "$_SAVED_NUMLOCK_ON") {
        return Some(0x4294);
    }
    if eq_str(w, "$_SAVED_SCROLLLOCK_ON") {
        return Some(0x4295);
    }
    if eq_str(w, "$_RECEIVED_HOST_LOCK_LED_REPLY") {
        return Some(0x4296);
    }
    if eq_str(w, "$_EXFIL_MODE_ENABLED") {
        return Some(0x4297);
    }
    if eq_str(w, "$_STORAGE_ACTIVITY_TIMEOUT") {
        return Some(0x4298);
    }
    if eq_str(w, "$_BUTTON_TIMEOUT") {
        return Some(0x4299);
    }
    if eq_str(w, "$_PAYLOAD_PARSE_SPEED") {
        return Some(0x429A);
    }
    if eq_str(w, "$_CURRENT_VID") {
        return Some(0x429B);
    }
    if eq_str(w, "$_CURRENT_PID") {
        return Some(0x429C);
    }
    if eq_str(w, "$_OS") {
        return Some(0x429D);
    }
    if eq_str(w, "$_HOST_CONFIGURATION_REQUEST_COUNT") {
        return Some(0x429F);
    }
    if eq_str(w, "$_CURRENT_ATTACKMODE") {
        return Some(0x42A0);
    }
    if eq_str(w, "$_JITTER_ENABLED") {
        return Some(0x42A2);
    }
    if eq_str(w, "$_JITTER_MAX") {
        return Some(0x42A3);
    }
    if eq_str(w, "$_STORAGE_ACTIVE") {
        return Some(0x42A4);
    }
    if eq_str(w, "$_RANDOM_INT") {
        return Some(0x42A8);
    }
    if eq_str(w, "$_RANDOM_MIN") {
        return Some(0x42F0);
    }
    if eq_str(w, "$_RANDOM_MAX") {
        return Some(0x42F1);
    }
    if eq_str(w, "$_RANDOM_SEED") {
        return Some(0x42F2);
    }
    if eq_str(w, "$_RANDOM_UINT16") {
        return Some(0x42F3);
    }
    if eq_str(w, "$_RANDOM_ASCII_LOWER_LETTER") {
        return Some(0x42F4);
    }
    if eq_str(w, "$_RANDOM_ASCII_UPPER_LETTER") {
        return Some(0x42F5);
    }
    if eq_str(w, "$_RANDOM_ASCII_LETTER") {
        return Some(0x42F6);
    }
    if eq_str(w, "$_RANDOM_ASCII_NUMBER") {
        return Some(0x42F7);
    }
    if eq_str(w, "$_RANDOM_ASCII_SPECIAL") {
        return Some(0x42F8);
    }
    if eq_str(w, "$_RANDOM_ASCII_CHAR") {
        return Some(0x42F9);
    }
    if eq_str(w, "$_RANDOM_LOWER_LETTER_KEYCODE") {
        return Some(0x42FA);
    }
    if eq_str(w, "$_RANDOM_UPPER_LETTER_KEYCODE") {
        return Some(0x42FB);
    }
    if eq_str(w, "$_RANDOM_LETTER_KEYCODE") {
        return Some(0x42FF);
    }
    if eq_str(w, "$_RANDOM_NUMBER_KEYCODE") {
        return Some(0x42FC);
    }
    if eq_str(w, "$_RANDOM_SPECIAL_KEYCODE") {
        return Some(0x42FD);
    }
    if eq_str(w, "$_RANDOM_CHAR_KEYCODE") {
        return Some(0x42FE);
    }
    None
}

/// The value of a reserved constant.
pub open spec fn reserved_constant_code(w: Seq<char>) -> Option<u16> {
    if w == "FALSE"@ {
        Some(0x4267)
    } else if w == "TRUE"@ {
        Some(0x4268)
    } else if w == "WINDOWS"@ {
        Some(0x4269)
    } else if w == "MACOS"@ {
        Some(0x4270)
    } else if w == "LINUX"@ {
        Some(0x4271)
    } else if w == "ANDROID"@ {
        Some(0x4272)
    } else if w == "IOS"@ {
        Some(0x4273)
    } else if w == "CHROMEOS"@ {
        Some(0x4274)
    } else {
        None
    }
}

pub fn reserved_constant_code_of(w: &[char]) -> (r: Option<u16>)
    ensures
        r == reserved_constant_code(w@),
{
    if eq_str(w, "FALSE") {
        return Some(0x4267);
    }
    if eq_str(w, "TRUE") {
        return Some(0x4268);
    }
    if eq_str(w, "WINDOWS") {
        return Some(0x4269);
    }
    if eq_str(w, "MACOS") {
        return Some(0x4270);
    }
    if eq_str(w, "LINUX") {
        return Some(0x4271);
    }
    if eq_str(w, "ANDROID") {
        return Some(0x4272);
    }
    if eq_str(w, "IOS") {
        return Some(0x4273);
    }
    if eq_str(w, "CHROMEOS") {
        return Some(0x4274);
    }
    None
}

/// The opcode of a built-in command.
pub open spec fn builtin_code(w: Seq<char>) -> Option<u16> {
    if w == "RESET"@ {
        Some(0xED04)
    } else if w == "KEY_HOLD"@ {
        Some(0xF8FF)
    } else if w == "KEY_RELEASE"@ {
        Some(0xE8EE)
    } else if w == "DISABLE_BUTTON"@ {
        Some(0xEEEB)
    } else if w == "ENABLE_BUTTON"@ {
        Some(0xEEEC)
    } else if w == "RESTART_PAYLOAD"@ {
        Some(0xF1EA)
    } else if w == "STOP_PAYLOAD"@ {
        Some(0xF1EB)
    } else if w == "LED_OFF"@ {
        Some(0xEDEA)
    } else if w == "LED_G"@ {
        Some(0xEDEB)
    } else if w == "LED_GREEN"@ {
        Some(0xEDEB)
    } else if w == "LED_R"@ {
        Some(0xEDEC)
    } else if w == "LED_RED"@ {
        Some(0xEDEC)
    } else if w == "ENABLE_SYSTEM_LEDS"@ {
        Some(0xED01)
    } else if w == "DISABLE_SYSTEM_LEDS"@ {
        Some(0xED02)
    } else if w == "SAVE_HOST_KEYBOARD_LOCK_STATE"@ {
        Some(0xEBEA)
    } else if w == "RESTORE_HOST_KEYBOARD_LOCK_STATE"@ {
        Some(0xEBEB)
    } else if w == "WAIT_FOR_BUTTON_PRESS"@ {
        Some(0xEAEA)
    } else if w == "SAVE_ATTACKMODE"@ {
        Some(0xE9EA)
    } else if w == "RESTORE_ATTACKMODE"@ {
        Some(0xE9EB)
    } else if w == "WAIT_FOR_CAPS_ON"@ {
        Some(0xEA01)
    } else if w == "WAIT_FOR_CAPS_OFF"@ {
        Some(0xEA02)
    } else if w == "WAIT_FOR_CAPS_CHANGE"@ {
        Some(0xEA03)
    } else if w == "WAIT_FOR_NUM_ON"@ {
        Some(0xEA04)
    } else if w == "WAIT_FOR_NUM_OFF"@ {
        Some(0xEA05)
    } else if w == "WAIT_FOR_NUM_CHANGE"@ {
        Some(0xEA06)
    } else if w == "WAIT_FOR_SCROLL_ON"@ {
        Some(0xEA07)
    } else if w == "WAIT_FOR_SCROLL_OFF"@ {
        Some(0xEA08)
    } else if w == "WAIT_FOR_SCROLL_CHANGE"@ {
        Some(0xEA09)
    } else if w == "WAIT_FOR_STORAGE_ACTIVITY"@ {
        Some(0xEAEE)
    } else if w == "WAIT_FOR_STORAGE_INACTIVITY"@ {
        Some(0xEAEF)
    } else if w == "HIDE_PAYLOAD"@ {
        Some(0xE9F8)
    } else if w == "RESTORE_PAYLOAD"@ {
        Some(0xE9F9)
    } else {
        None
    }
}

pub fn builtin_code_of(w: &[char]) -> (r: Option<u16>)
    ensures
        r == builtin_code(w@),
{
    if eq_str(w, "RESET") {
        return Some(0xED04);
    }
    if eq_str(w, "KEY_HOLD") {
        return Some(0xF8FF);
    }
    if eq_str(w, "KEY_RELEASE") {
        return Some(0xE8EE);
    }
    if eq_str(w, "DISABLE_BUTTON") {
        return Some(0xEEEB);
    }
    if eq_str(w, "ENABLE_BUTTON") {
        return Some(0xEEEC);
    }
    if eq_str(w, "RESTART_PAYLOAD") {
        return Some(0xF1EA);
    }
    if eq_str(w, "STOP_PAYLOAD") {
        return Some(0xF1EB);
    }
    if eq_str(w, "LED_OFF") {
        return Some(0xEDEA);
    }
    if eq_str(w, "LED_G") {
        return Some(0xEDEB);
    }
    if eq_str(w, "LED_GREEN") {
        return Some(0xEDEB);
    }
    if eq_str(w, "LED_R") {
        return Some(0xEDEC);
    }
    if eq_str(w, "LED_RED") {
        return Some(0xEDEC);
    }
    if eq_str(w, "ENABLE_SYSTEM_LEDS") {
        return Some(0xED01);
    }
    if eq_str(w, "DISABLE_SYSTEM_LEDS") {
        return Some(0xED02);
    }
    if eq_str(w, "SAVE_HOST_KEYBOARD_LOCK_STATE") {
        return Some(0xEBEA);
    }
    if eq_str(w, "RESTORE_HOST_KEYBOARD_LOCK_STATE") {
        return Some(0xEBEB);
    }
    if eq_str(w, "WAIT_FOR_BUTTON_PRESS") {
        return Some(0xEAEA);
    }
    if eq_str(w, "SAVE_ATTACKMODE") {
        return Some(0xE9EA);
    }
    if eq_str(w, "RESTORE_ATTACKMODE") {
        return Some(0xE9EB);
    }
    if eq_str(w, "WAIT_FOR_CAPS_ON") {
        return Some(0xEA01);
    }
    if eq_str(w, "WAIT_FOR_CAPS_OFF") {
        return Some(0xEA02);
    }
    if eq_str(w, "WAIT_FOR_CAPS_CHANGE") {
        return Some(0xEA03);
    }
    if eq_str(w, "WAIT_FOR_NUM_ON") {
        return Some(0xEA04);
    }
    if eq_str(w, "WAIT_FOR_NUM_OFF") {
        return Some(0xEA05);
    }
    if eq_str(w, "WAIT_FOR_NUM_CHANGE") {
        return Some(0xEA06);
    }
    if eq_str(w, "WAIT_FOR_SCROLL_ON") {
        return Some(0xEA07);
    }
    if eq_str(w, "WAIT_FOR_SCROLL_OFF") {
        return Some(0xEA08);
    }
    if eq_str(w, "WAIT_FOR_SCROLL_CHANGE") {
        return Some(0xEA09);
    }
    if eq_str(w, "WAIT_FOR_STORAGE_ACTIVITY") {
        return Some(0xEAEE);
    }
    if eq_str(w, "WAIT_FOR_STORAGE_INACTIVITY") {
        return Some(0xEAEF);
    }
    if eq_str(w, "HIDE_PAYLOAD") {
        return Some(0xE9F8);
    }
    if eq_str(w, "RESTORE_PAYLOAD") {
        return Some(0xE9F9);
    }
    None
}

/// The two-character tokens of the expression syntax.
pub open spec fn is_double_operator(a: char, b: char) -> bool {
    ||| (a == '&' && b == '&')
    ||| (a == '|' && b == '|')
    ||| (a == '<' && b == '<')
    ||| (a == '>' && b == '>')
    ||| (a == '=' && b == '=')
    ||| (a == '!' && b == '=')
    ||| (a == '(' && b == ')')
    ||| (a == '<' && b == '=')
    ||| (a == '>' && b == '=')
}

pub fn is_double_operator_pair(a: char, b: char) -> (r: bool)
    ensures
        r == is_double_operator(a, b),
{
    (a == '&' && b == '&') || (a == '|' && b == '|') || (a == '<' && b == '<') || (a == '>' && b == '>') || (a == '=' && b == '=') || (a == '!' && b == '=') || (a == '(' && b == ')') || (a == '<' && b == '=') || (a == '>' && b == '=')
}

} // verus!
