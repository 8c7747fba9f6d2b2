//! The compiler as a state machine over a mathematical model of its state:
//! what each command does to the output, the variables, the labels and the
//! open blocks.
use vstd::prelude::*;

use crate::encoder;
use crate::language;
use crate::lexer::{self, TokenType};
use crate::numbers;
use crate::preprocessor;
use crate::text;

verus! {

/// The compiler's state.
#[verifier::ext_equal]
pub struct Model {
    /// The address of each variable.
    pub vars: Map<Seq<char>, usize>,
    /// The hex value of each address (address 0 holds a marker).
    pub values: Seq<Seq<char>>,
    pub labels: Map<Seq<char>, usize>,
    /// The open IF/WHILE blocks, innermost last.
    pub blocks: Seq<u16>,
    pub current_block: u16,
    pub next_block: u16,
    pub total_regs: usize,
    pub free_regs: usize,
    pub lang_pack: bool,
    /// The key codes of each key name.
    pub layout: Map<Seq<char>, Seq<char>>,
    /// The bytes produced so far.
    pub out: Seq<u8>,
    pub ds3: bool,
    pub default_delay: u32,
    pub delay_override: bool,
    /// The line being compiled (from 0).
    pub line_index: usize,
    pub in_string: bool,
    pub in_stringln: bool,
    pub indent: usize,
    pub preserve: bool,
    pub in_rem: bool,
    /// For each open IF chain, the positions of the jumps to its end.
    pub awaiting: Seq<Seq<usize>>,
    /// Calls of functions not defined yet: the label and the jump position.
    pub pending_calls: Seq<(Seq<char>, usize)>,
    pub defining_function: bool,
    pub return_defined: bool,
    pub defining_button: u32,
    pub buttons: Seq<u32>,
    /// Hex addresses of modifier variables waiting for INJECT_MOD.
    pub modifier_queue: Seq<Seq<char>>,
    /// The last command line run, which a bare `REPEAT n` runs again.
    pub last_command: Seq<char>,
    /// The line being compiled.
    pub current_line: Seq<char>,
    /// The last line compiled to its end.
    pub previous_line: Seq<char>,
}

/// Why a command fails.
pub enum Fault {
    UnknownVariable(Seq<char>),
    EmptyExpression,
    MismatchedParentheses(nat, nat),
    Syntax(Seq<char>),
    DuplicateDefinition(Seq<char>),
    InvalidHex(Seq<char>),
    InvalidExpression(Seq<char>),
}

/// A command's effect: the state after it, and why it stopped, if it failed.
pub type Outcome = (Model, Option<Fault>);

pub open spec fn ok(m: Model) -> Outcome {
    (m, None)
}

/// The two bytes of a 16-bit code, low byte first (`hex_encode`).
pub open spec fn code_bytes(v: u16) -> Seq<u8> {
    seq![(v % 256) as u8, (v / 256) as u8]
}

/// The bytes of an address written with `dec_to_hex`.
pub open spec fn addr_bytes(a: nat) -> Seq<u8> {
    encoder::token_bytes(encoder::dec_to_hex_spec(a))
}

pub open spec fn emit(m: Model, b: Seq<u8>) -> Model {
    Model { out: m.out + b, ..m }
}

pub open spec fn mark_ds3(m: Model) -> Model {
    Model { ds3: true, ..m }
}

/// The codes of a key in the layout, split at commas.
pub open spec fn codes(m: Model, key: Seq<char>) -> Option<Seq<Seq<char>>> {
    if m.layout.dom().contains(key) {
        Some(language::split_char(m.layout[key], ','))
    } else {
        None
    }
}

/// The first token that cannot be cut into its bytes 0..2 and 2..4.
pub open spec fn ill_sized(ts: Seq<Seq<char>>) -> Seq<char>
    decreases ts.len(),
{
    if ts.len() == 0 {
        Seq::empty()
    } else if !encoder::string_cut_ok(ts[0]) {
        ts[0]
    } else {
        ill_sized(ts.drop_first())
    }
}

/// Appends the bytes of hex tokens, each read as `append_hex_string_array`
/// reads it; a token whose bytes 0..2 and 2..4 cannot be cut out (three
/// bytes long, or a character across the cut) is refused.
pub open spec fn emit_tokens(m: Model, ts: Seq<Seq<char>>) -> Outcome {
    if encoder::strings_cut_ok(ts) {
        ok(emit(m, encoder::strings_bytes(ts)))
    } else {
        (m, Some(Fault::InvalidHex(ill_sized(ts))))
    }
}

/// The tokens that type a key, from its codes: a two-code key gives both
/// codes, a key of three or more codes gives its key code then its modifier
/// (or `00`), a modifier alone gives `00` then the modifier, a single code
/// gives the code then `00`.
pub open spec fn key_tokens(c: Seq<Seq<char>>) -> Seq<Seq<char>> {
    if c.len() == 2 {
        seq![c[0], c[1]]
    } else if c.len() >= 3 {
        if c[2] != "00"@ {
            if c[0] != "00"@ {
                seq![c[2], c[0]]
            } else {
                seq![c[2], "00"@]
            }
        } else {
            seq!["00"@, c[0]]
        }
    } else if c.len() == 1 {
        seq![c[0], "00"@]
    } else {
        seq![]
    }
}

/// Types one key; a key missing from the layout types nothing.
pub open spec fn inject_key(m: Model, key: Seq<char>) -> Outcome {
    match codes(m, key) {
        None => ok(m),
        Some(c) => emit_tokens(m, key_tokens(c)),
    }
}

/// Types each character of `s` in turn, stopping at the first failure.
pub open spec fn inject_all(m: Model, s: Seq<char>) -> Outcome
    decreases s.len(),
{
    if s.len() == 0 {
        ok(m)
    } else {
        let r = inject_key(m, seq![s[0]]);
        if r.1 is Some {
            r
        } else {
            inject_all(r.0, s.drop_first())
        }
    }
}

/// Runs `f` after `r` unless `r` failed.
pub open spec fn then(r: Outcome, f: spec_fn(Model) -> Outcome) -> Outcome {
    if r.1 is Some {
        r
    } else {
        f(r.0)
    }
}

pub open spec fn parse_u32(s: Seq<char>) -> Option<nat> {
    numbers::parse_unsigned(s, 0xffff_ffff)
}

/// DELAY: the delay bytes of the number, when it reads as one.
pub open spec fn handle_delay(m: Model, line: Seq<char>) -> Outcome {
    let p = text::words(line);
    if p.len() < 2 {
        ok(m)
    } else {
        match parse_u32(p[1]) {
            Some(d) => ok(
                emit(
                    Model { delay_override: true, ..m },
                    encoder::tokens_bytes(encoder::delay_tokens(d)),
                ),
            ),
            None => ok(m),
        }
    }
}

/// The hex operand of a one-operand command, without its `0x`/`0X` prefixes.
pub open spec fn strip_hex_prefix(a: Seq<char>) -> Seq<char> {
    encoder::strip_all_prefix(encoder::strip_all_prefix(a, "0x"@), "0X"@)
}

/// The byte operand of KEY_DOWN and the like (`00` when absent or unreadable).
pub open spec fn single_operand(line: Seq<char>) -> u8 {
    let p = text::words(line);
    let a = if p.len() >= 2 {
        p[1]
    } else {
        "0x00"@
    };
    encoder::hex_byte(text::trim(strip_hex_prefix(a)))
}

/// `s` with every `0x` and then every `0X` removed.
pub open spec fn remove_hex_markers(s: Seq<char>) -> Seq<char> {
    crate::preprocessor::replace_all(crate::preprocessor::replace_all(s, "0x"@, Seq::empty()), "0X"@, Seq::empty())
}

/// What follows the first space of `t` (nothing when it has none).
pub open spec fn after_space(t: Seq<char>) -> Seq<char> {
    let k = text::index_of_char(t, ' ');
    if k < t.len() {
        t.skip(k + 1 as int)
    } else {
        Seq::empty()
    }
}

/// What follows the first space of the trimmed line.
pub open spec fn after_first_space(line: Seq<char>) -> Seq<char> {
    after_space(text::trim(line))
}

/// The two byte operands of MOD_KEY_DOWN and MOD_KEY_UP.
pub open spec fn two_operands(line: Seq<char>) -> (u8, u8) {
    let c = remove_hex_markers(after_first_space(line));
    let b1 = if c.len() >= 2 {
        c.take(2)
    } else {
        Seq::empty()
    };
    let b2 = if c.len() >= 4 {
        c.subrange(2, 4)
    } else {
        Seq::empty()
    };
    (encoder::hex_byte(text::trim(b1)), encoder::hex_byte(text::trim(b2)))
}

/// KEY_DOWN, KEY_UP, MOD_DOWN, MOD_UP: an opcode and one byte.
pub open spec fn handle_one_operand(m: Model, line: Seq<char>, opcode: u16) -> Outcome {
    ok(emit(mark_ds3(m), code_bytes(opcode) + seq![single_operand(line)]))
}

/// MOD_KEY_DOWN, MOD_KEY_UP: an opcode and two bytes.
pub open spec fn handle_two_operands(m: Model, line: Seq<char>, opcode: u16) -> Outcome {
    let (a, b) = two_operands(line);
    ok(emit(mark_ds3(m), code_bytes(opcode) + seq![a, b]))
}

/// INJECT and KEYCODE: an opcode and the hex operand.
pub open spec fn handle_inject(m: Model, line: Seq<char>) -> Outcome {
    let p = text::words(line);
    let m1 = mark_ds3(m);
    if p.len() >= 2 {
        emit_tokens(emit(m1, code_bytes(0xE8E9)), seq![strip_hex_prefix(p[1])])
    } else {
        ok(m1)
    }
}

/// The bytes that stand for a variable: its address, or the code of a
/// reserved variable.
pub open spec fn var_ref(m: Model, name: Seq<char>) -> Option<Seq<u8>> {
    if m.vars.dom().contains(name) {
        Some(addr_bytes(m.vars[name] as nat))
    } else {
        match crate::constants::reserved_variable_code(name) {
            Some(v) => Some(code_bytes(v)),
            None => None,
        }
    }
}

/// INJECT_VAR, DELAY $var: an opcode and a variable.
pub open spec fn handle_var_command(m: Model, line: Seq<char>, opcode: u16) -> Outcome {
    let p = text::words(line);
    let m0 = mark_ds3(m);
    if p.len() < 2 {
        ok(m0)
    } else {
        let m1 = emit(m0, code_bytes(opcode));
        match var_ref(m1, p[1]) {
            Some(b) => ok(emit(m1, b)),
            None => (m1, Some(Fault::UnknownVariable(p[1]))),
        }
    }
}

/// EXFIL: an opcode and the address of a declared variable.
pub open spec fn handle_exfil(m: Model, line: Seq<char>) -> Outcome {
    let p = text::words(line);
    let m0 = mark_ds3(m);
    if p.len() < 2 {
        ok(m0)
    } else {
        let m1 = emit(m0, code_bytes(0xE9F6));
        if m1.vars.dom().contains(p[1]) {
            ok(emit(m1, addr_bytes(m1.vars[p[1]] as nat)))
        } else {
            (m1, Some(Fault::UnknownVariable(p[1])))
        }
    }
}

/// RANDOM_*: a keycode read from a random variable.
pub open spec fn handle_random(m: Model, var_code: u16) -> Outcome {
    ok(emit(Model { lang_pack: true, ..mark_ds3(m) }, code_bytes(0xE9E9) + code_bytes(var_code)))
}

/// BUTTON_DEF: opens a button block.
pub open spec fn handle_button_def(m: Model) -> Outcome {
    let n = (m.defining_button + 1) as u32;
    let n = if m.defining_button == 0xffff_ffff { 0u32 } else { n };
    ok(
        emit(
            Model { defining_button: n, buttons: m.buttons.push(n), ..mark_ds3(m) },
            seq![0xEAu8, 0xEEu8] + addr_bytes(n as nat),
        ),
    )
}

/// END_BUTTON: closes the innermost button block.
pub open spec fn handle_end_button_def(m: Model) -> Outcome {
    let (addr, buttons) = if m.buttons.len() > 0 {
        (m.buttons.last(), m.buttons.drop_last())
    } else {
        (if m.defining_button >= 1 { m.defining_button } else { 1u32 }, m.buttons)
    };
    let d = if m.defining_button >= 1 { (m.defining_button - 1) as u32 } else { 0u32 };
    ok(
        emit(
            Model { buttons, defining_button: d, ..mark_ds3(m) },
            seq![0xEBu8, 0xF4u8] + addr_bytes(addr as nat),
        ),
    )
}

/// DEFAULT_DELAY: sets the default delay.
pub open spec fn handle_default_delay(m: Model, line: Seq<char>) -> Outcome {
    let p = text::words(line);
    if p.len() >= 2 {
        match parse_u32(p[1]) {
            Some(d) => ok(Model { default_delay: d as u32, delay_override: true, ..m }),
            None => ok(m),
        }
    } else {
        ok(m)
    }
}

/// The arguments of a STRING line: what follows the first space once the
/// leading whitespace is gone.
pub open spec fn string_args(line: Seq<char>) -> Seq<char> {
    after_space(text::trim_start(line))
}

/// `s` without a final `marker`.
pub open spec fn strip_marker(s: Seq<char>, marker: Seq<char>) -> Seq<char> {
    if text::ends_with(s, marker) {
        s.take(s.len() - marker.len())
    } else {
        s
    }
}

/// STRING: types the arguments, without an inline ` END_STRING`.
pub open spec fn handle_string(m: Model, line: Seq<char>) -> Outcome {
    inject_all(m, strip_marker(string_args(line), " END_STRING"@))
}

/// STRINGLN: types the arguments, without an inline ` END_STRINGLN`, then ENTER.
pub open spec fn handle_stringln(m: Model, line: Seq<char>) -> Outcome {
    let r = inject_all(m, strip_marker(string_args(line), " END_STRINGLN"@));
    if r.1 is Some {
        r
    } else {
        inject_key(r.0, "ENTER"@)
    }
}

/// Types each of the keys in turn, stopping at the first failure.
pub open spec fn inject_keys(m: Model, keys: Seq<Seq<char>>) -> Outcome
    decreases keys.len(),
{
    if keys.len() == 0 {
        ok(m)
    } else {
        let r = inject_key(m, keys[0]);
        if r.1 is Some {
            r
        } else {
            inject_keys(r.0, keys.drop_first())
        }
    }
}

/// HOLD: an opcode and the keys to hold.
pub open spec fn handle_hold(m: Model, line: Seq<char>) -> Outcome {
    let p = text::words(line);
    if p.len() >= 2 {
        inject_keys(emit(m, code_bytes(0xF8FF)), p.skip(1))
    } else {
        ok(m)
    }
}

/// RELEASE: an opcode and the keys to release, or two zero bytes.
pub open spec fn handle_release(m: Model, line: Seq<char>) -> Outcome {
    let p = text::words(line);
    if p.len() >= 2 {
        inject_keys(emit(m, code_bytes(0xE8EE)), p.skip(1))
    } else {
        ok(emit(m, seq![0u8, 0u8]))
    }
}

/// The first code of a key, or `00` when the layout lacks it.
pub open spec fn first_code(m: Model, key: Seq<char>) -> Seq<char> {
    match codes(m, key) {
        Some(c) => if c.len() >= 1 {
            c[0]
        } else {
            "00"@
        },
        None => "00"@,
    }
}

/// INJECT_MOD: sends the queued modifier variables, then an opcode and the
/// modifier's code after a zero key code.
pub open spec fn handle_inject_mod(m: Model, line: Seq<char>) -> Outcome {
    let r = if m.modifier_queue.len() > 0 {
        let e = emit_tokens(m, m.modifier_queue);
        (Model { modifier_queue: Seq::empty(), ..e.0 }, e.1)
    } else {
        ok(m)
    };
    if r.1 is Some {
        r
    } else {
        let m1 = emit(r.0, code_bytes(0xE9E6));
        let p = text::words(line);
        if p.len() >= 2 {
            let param = crate::preprocessor::join_words(p.skip(1));
            emit_tokens(m1, seq!["00"@, first_code(m1, param)])
        } else {
            ok(m1)
        }
    }
}

/// Gives `name` the next address and the value `v`.
pub open spec fn with_var(m: Model, name: Seq<char>, v: Seq<char>) -> Model {
    Model { vars: m.vars.insert(name, m.values.len() as usize), values: m.values.push(v), ..m }
}

/// The value of a modifier variable: the key's first code then the
/// modifier's, or the modifier's then `00`.
pub open spec fn modifier_value(m: Model, modifier: Seq<char>, key: Seq<char>) -> Seq<char> {
    let kc = if key.len() > 0 {
        codes(m, key)
    } else {
        None
    };
    match (codes(m, modifier), kc) {
        (Some(mc), Some(k)) => if k.len() >= 1 && mc.len() >= 1 {
            k[0] + mc[0]
        } else {
            "0000"@
        },
        (Some(mc), None) => if mc.len() >= 1 {
            mc[0] + "00"@
        } else {
            "0000"@
        },
        _ => "0000"@,
    }
}

/// A modifier line (`CTRL`, `GUI r`, ...): queues the address of the
/// variable that holds the combination.
pub open spec fn handle_modifier(m: Model, line: Seq<char>) -> Outcome {
    let p = text::words(line);
    if p.len() == 0 {
        ok(m)
    } else {
        let modifier = p[0];
        let key = if p.len() > 1 {
            p[1]
        } else {
            Seq::empty()
        };
        let name = "__MOD_"@ + modifier + "_"@ + key;
        let m1 = if m.vars.dom().contains(name) {
            m
        } else {
            with_var(m, name, modifier_value(m, modifier, key))
        };
        ok(
            Model {
                modifier_queue: m1.modifier_queue.push(
                    encoder::dec_to_hex_spec(m1.vars[name] as nat),
                ),
                ..m1
            },
        )
    }
}

/// Types the line number shown to the user (the index plus three) and `;`.
pub open spec fn inject_line_number(m: Model) -> Outcome {
    let r = inject_all(m, numbers::decimal((m.line_index + 3) as nat));
    if r.1 is Some {
        r
    } else {
        inject_key(r.0, ";"@)
    }
}

/// INJECT_BREAKPOINT_LINE_NUMBER: the line number, then an 800 ms delay.
pub open spec fn handle_inject_line_number(m: Model) -> Outcome {
    let r = inject_line_number(mark_ds3(m));
    if r.1 is Some {
        r
    } else {
        ok(
            emit(
                Model { delay_override: true, ..r.0 },
                encoder::tokens_bytes(encoder::delay_tokens(800)),
            ),
        )
    }
}

/// The code of a built-in command, as bytes (none when it is not one).
pub open spec fn builtin_bytes(name: Seq<char>) -> Seq<u8> {
    match crate::constants::builtin_code(name) {
        Some(v) => code_bytes(v),
        None => Seq::empty(),
    }
}

/// BREAKPOINT: types ENTER, `BREAKPOINT `, the line number, waits for the
/// button between the LEDs, and types ENTER.
pub open spec fn handle_breakpoint(m: Model) -> Outcome {
    let r1 = inject_key(mark_ds3(m), "ENTER"@);
    let r2 = then(r1, |x: Model| inject_all(x, "BREAKPOINT "@));
    let r3 = then(r2, |x: Model| inject_line_number(x));
    then(
        r3,
        |x: Model|
            inject_key(
                emit(
                    x,
                    builtin_bytes("LED_R"@) + builtin_bytes("WAIT_FOR_BUTTON_PRESS"@)
                        + builtin_bytes("LED_G"@),
                ),
                "ENTER"@,
            ),
    )
}

/// The key and modifier sums of a key combination (`CTRL ALT DELETE`).
pub open spec fn key_sums(m: Model, parts: Seq<Seq<char>>) -> (u8, u8)
    decreases parts.len(),
{
    if parts.len() == 0 {
        (0, 0)
    } else {
        let (k, md) = key_sums(m, parts.drop_last());
        match codes(m, parts.last()) {
            Some(c) => if c.len() >= 3 {
                let mv = encoder::hex_byte(c[0]);
                let kv = encoder::hex_byte(c[2]);
                if kv != 0 {
                    (
                        ((k + kv) % 256) as u8,
                        if mv != 0 {
                            ((md + mv) % 256) as u8
                        } else {
                            md
                        },
                    )
                } else {
                    (k, ((md + mv) % 256) as u8)
                }
            } else if c.len() >= 1 {
                (((k + encoder::hex_byte(c[0])) % 256) as u8, md)
            } else {
                (k, md)
            },
            None => (k, md),
        }
    }
}

/// Any other line: a built-in command, a key combination, or one key.
pub open spec fn handle_unknown(m: Model, line: Seq<char>) -> Outcome {
    let t = text::trim(line);
    let restore = "RESTORE_HOST_KEYBOARD_LOCK_STATE"@;
    if encoder::lower(t) == encoder::lower(restore) && crate::constants::builtin_code(
        restore,
    ).is_some() {
        ok(emit(m, builtin_bytes(restore) + seq![0u8, 0u8, 0u8, 0u8, 0u8, 0u8]))
    } else if crate::constants::builtin_code(t).is_some() {
        ok(emit(m, builtin_bytes(t)))
    } else {
        let parts = text::words(t).filter(|w: Seq<char>| w != "-"@);
        if parts.len() > 1 {
            let (k, md) = key_sums(m, parts);
            ok(emit(m, seq![k, md]))
        } else {
            inject_key(m, t)
        }
    }
}

/// The delay written after a line, when a default delay applies.
pub open spec fn pending_delay(m: Model) -> Option<Seq<Seq<char>>> {
    if !m.delay_override && m.default_delay > 0 {
        Some(encoder::delay_tokens(m.default_delay as nat))
    } else {
        None
    }
}

/// The block left open at the end, if any.
pub open spec fn unclosed(m: Model) -> Option<Seq<char>> {
    if m.blocks.len() > 0 {
        Some("IF/WHILE"@)
    } else if m.in_string {
        Some("STRING"@)
    } else if m.in_stringln {
        Some("STRINGLN"@)
    } else if m.defining_button > 0 {
        Some("BUTTON"@)
    } else {
        None
    }
}

/// `s` without every trailing repetition of `p` (`trim_end_matches`).
pub open spec fn strip_all_suffix(s: Seq<char>, p: Seq<char>) -> Seq<char>
    decreases s.len(),
{
    if p.len() > 0 && text::ends_with(s, p) {
        strip_all_suffix(s.take(s.len() - p.len()), p)
    } else {
        s
    }
}

/// Why a line fails when no register is left.
pub open spec fn registers_exhausted() -> Fault {
    Fault::InvalidExpression("too many evaluation registers"@)
}

/// Why a line fails when `)` closes a two-item expression.
pub open spec fn incomplete_operation() -> Fault {
    Fault::InvalidExpression("incomplete operation before )"@)
}

/// Takes an evaluation register, adding one when none is free (none when
/// the count is at its limit).
pub open spec fn next_reg(m: Model) -> Option<Model> {
    if m.free_regs == 0 {
        if m.total_regs < usize::MAX {
            Some(Model { total_regs: (m.total_regs + 1) as usize, free_regs: 1, ..m })
        } else {
            None
        }
    } else {
        Some(m)
    }
}

/// The register in use.
pub open spec fn cur_reg(m: Model) -> Seq<char> {
    crate::parser::ParserState::register_name((m.total_regs - m.free_regs) as nat)
}

/// One register fewer is free.
pub open spec fn release_reg(m: Model) -> Model {
    Model { free_regs: if m.free_regs > 0 { (m.free_regs - 1) as usize } else { 0 }, ..m }
}

/// The name of a function's label.
pub open spec fn function_label(call: Seq<char>) -> Seq<char> {
    "function_"@ + strip_all_suffix(text::trim(call), "()"@)
}

/// A call `name()`: a jump to the function, or a jump whose target is
/// recorded until the function is defined.
pub open spec fn handle_function_call(m: Model, line: Seq<char>) -> Outcome {
    let label = function_label(line);
    let m0 = mark_ds3(m);
    if m0.labels.dom().contains(label) {
        ok(emit(m0, seq![0xF7u8, 0xF7u8] + addr_bytes(m0.labels[label] as nat / 2 + 3)))
    } else {
        let m1 = emit(m0, seq![0xF7u8, 0xF7u8, 0u8, 0u8]);
        ok(
            Model {
                pending_calls: m1.pending_calls.push((label, (m1.out.len() - 2) as usize)),
                ..m1
            },
        )
    }
}

/// The tokens that encode one word of an expression, and the state once
/// the constants and variables it names have addresses.
pub open spec fn encode_word(m: Model, w: Seq<char>) -> (Model, Seq<Seq<char>>) {
    if w == "0000"@ {
        (m, seq!["0000"@])
    } else if w == "IF"@ {
        (m, seq![encoder::hex_encode_spec(0xEFEF)])
    } else if crate::constants::reserved_variable_code(w).is_some() {
        (m, seq![encoder::hex_encode_spec(crate::constants::reserved_variable_code(w).unwrap())])
    } else if crate::constants::reserved_constant_code(w).is_some() {
        (m, seq![encoder::hex_encode_spec(crate::constants::reserved_constant_code(w).unwrap())])
    } else if crate::constants::operator_code(w).is_some() {
        (m, seq![encoder::hex_encode_spec(crate::constants::operator_code(w).unwrap())])
    } else if text::starts_with(w, "$"@) {
        let m1 = if m.vars.dom().contains(w) {
            m
        } else {
            with_var(m, w, "0000"@)
        };
        (m1, seq![encoder::dec_to_hex_spec(m1.vars[w] as nat)])
    } else if w == "="@ {
        (m, seq![encoder::hex_encode_spec(0x01E8)])
    } else if text::starts_with(w, "0x"@) {
        let m1 = if m.vars.dom().contains(w) {
            m
        } else {
            with_var(m, w, encoder::swap_hex_spec(encoder::format_hex_spec(w)))
        };
        (m1, seq![encoder::dec_to_hex_spec(m1.vars[w] as nat)])
    } else if numbers::parse_i32(w).is_some() {
        let v = match numbers::parse_unsigned(w, 0xffff) {
            Some(n) => encoder::hex_encode_spec(n as u16),
            None => "0000"@,
        };
        let m1 = if m.vars.dom().contains(w) {
            m
        } else {
            with_var(m, w, v)
        };
        (m1, seq![encoder::dec_to_hex_spec(m1.vars[w] as nat)])
    } else {
        (m, Seq::empty())
    }
}

/// The tokens that encode the words of an expression, in order.
pub open spec fn encode_all(m: Model, ws: Seq<Seq<char>>) -> (Model, Seq<Seq<char>>)
    decreases ws.len(),
{
    if ws.len() == 0 {
        (m, Seq::empty())
    } else {
        let (m1, t1) = encode_all(m, ws.drop_last());
        let (m2, t2) = encode_word(m1, ws.last());
        (m2, t1 + t2)
    }
}

/// The state of an expression being read: the compiler, the operand stack,
/// the register assignments written so far, and the parentheses seen.
pub struct Parse {
    pub m: Model,
    pub stack: Seq<Seq<char>>,
    pub out: Seq<Seq<char>>,
    pub lp: nat,
    pub rp: nat,
}

pub open spec fn start(m: Model) -> Parse {
    Parse { m, stack: Seq::empty(), out: Seq::empty(), lp: 0, rp: 0 }
}

/// A call inside an expression: its result goes to a fresh register.
pub open spec fn call_in_expression(p: Parse, w: Seq<char>) -> (Parse, Option<Fault>)
    decreases 1nat, 0nat,
{
    match next_reg(p.m) {
        None => (p, Some(registers_exhausted())),
        Some(m1) => {
            let reg = cur_reg(m1);
            let p1 = Parse { m: m1, stack: p.stack.push(reg), ..p };
            let r = handle_function_call(m1, w);
            if r.1 is Some {
                (Parse { m: r.0, ..p1 }, r.1)
            } else {
                let r2 = handle_assignment(r.0, reg + " = $_f_ret"@, false);
                if r2.1 is Some {
                    (Parse { m: r2.0, ..p1 }, r2.1)
                } else {
                    (Parse { m: release_reg(r2.0), ..p1 }, None)
                }
            }
        },
    }
}

/// One word of an IF condition.
pub open spec fn if_step(p: Parse, w: Seq<char>) -> (Parse, Option<Fault>) {
    if w == "IF"@ || w == "THEN"@ || w == "{"@ {
        (p, None)
    } else if text::contains(w, "()"@) {
        call_in_expression(p, w)
    } else if w == "("@ {
        (Parse { lp: p.lp + 1, ..p }, None)
    } else if w == ")"@ {
        let p0 = Parse { rp: p.rp + 1, ..p };
        match next_reg(p.m) {
            None => (p0, Some(registers_exhausted())),
            Some(m1) => {
                let reg = cur_reg(m1);
                let s = p.stack;
                let n = s.len();
                if n >= 3 {
                    (
                        Parse {
                            m: release_reg(m1),
                            stack: s.take(n - 3).push(reg),
                            out: p.out + seq!["="@, reg, s[n - 3], s[n - 1], s[n - 2]],
                            ..p0
                        },
                        None,
                    )
                } else if n == 0 {
                    (Parse { m: m1, ..p0 }, Some(Fault::EmptyExpression))
                } else if n == 2 {
                    (Parse { m: m1, ..p0 }, Some(incomplete_operation()))
                } else {
                    (
                        Parse {
                            m: release_reg(m1),
                            stack: seq![reg],
                            out: p.out + seq!["="@, reg, s[0], "0000"@],
                            ..p0
                        },
                        None,
                    )
                }
            },
        }
    } else {
        (Parse { stack: p.stack.push(w), ..p }, None)
    }
}

/// The words of an IF condition, read in turn until one fails.
pub open spec fn if_fold(p: Parse, ws: Seq<Seq<char>>) -> (Parse, Option<Fault>)
    decreases ws.len(),
{
    if ws.len() == 0 {
        (p, None)
    } else {
        let r = if_step(p, ws[0]);
        if r.1 is Some {
            r
        } else {
            if_fold(r.0, ws.drop_first())
        }
    }
}

/// The block number after `n` (wrapping at 16 bits).
pub open spec fn next_block_number(n: u16) -> u16 {
    if n == 0xffff {
        0
    } else {
        (n + 1) as u16
    }
}

/// The state once IF has opened its block: the next block number, and a
/// new chain unless `chain`.
pub open spec fn open_block(m: Model, chain: bool) -> Model {
    let nb = next_block_number(m.next_block);
    Model {
        ds3: true,
        next_block: nb,
        current_block: nb,
        awaiting: if chain {
            m.awaiting
        } else {
            m.awaiting.push(Seq::empty())
        },
        ..m
    }
}

/// The tokens of an IF condition: the register assignments, `IF` and the
/// condition's value, then the block number.
pub open spec fn if_tokens(m: Model, stack: Seq<Seq<char>>, out: Seq<Seq<char>>) -> (Model, Seq<Seq<char>>) {
    let last = if stack.len() == 1 {
        stack[0]
    } else {
        crate::parser::ParserState::register_name(
            if m.total_regs > 0 {
                (m.total_regs - 1) as nat
            } else {
                0
            },
        )
    };
    let e = encode_all(m, out + seq!["IF"@, last]);
    (e.0, e.1.push(encoder::dec_to_hex_spec(e.0.current_block as nat)))
}

/// The current block is open.
pub open spec fn push_block(m: Model) -> Model {
    Model { blocks: m.blocks.push(m.current_block), ..m }
}

/// The end of IF once its condition is read; then the block is open.
pub open spec fn finish_if(p: Parse) -> Outcome {
    if p.lp != p.rp {
        (p.m, Some(Fault::MismatchedParentheses(p.lp, p.rp)))
    } else {
        let e = if_tokens(p.m, p.stack, p.out);
        let r3 = emit_tokens(e.0, e.1);
        if r3.1 is Some {
            r3
        } else {
            ok(push_block(r3.0))
        }
    }
}

/// IF condition THEN: opens a block; `chain` when it continues an IF chain
/// (ELSE IF, ELSE).
pub open spec fn handle_if(m: Model, line: Seq<char>, chain: bool) -> Outcome {
    let r = if_fold(start(open_block(m, chain)), crate::parser::split_syntax(line));
    if r.1 is Some {
        (r.0.m, r.1)
    } else {
        finish_if(r.0)
    }
}

/// One word of an assignment; a call is read as a call only when `calls`.
pub open spec fn assign_step(p: Parse, w: Seq<char>, calls: bool) -> (Parse, Option<Fault>)
    decreases (if calls {
        2nat
    } else {
        0nat
    }),
        0nat,
{
    if w == "VAR"@ {
        (p, None)
    } else if calls && text::contains(w, "()"@) {
        call_in_expression(p, w)
    } else if w == "="@ {
        (Parse { stack: seq![w] + p.stack, ..p }, None)
    } else if w == "("@ {
        (Parse { lp: p.lp + 1, ..p }, None)
    } else if w == ")"@ {
        let p0 = Parse { rp: p.rp + 1, ..p };
        let s = p.stack;
        let n = s.len();
        if n == 0 {
            (Parse { m: release_reg(p.m), ..p0 }, None)
        } else {
            match next_reg(p.m) {
                None => (p0, Some(registers_exhausted())),
                Some(m1) => {
                    let reg = cur_reg(m1);
                    if n > 3 {
                        (
                            Parse {
                                m: release_reg(m1),
                                stack: s.take(n - 3).push(reg),
                                out: p.out + seq!["="@, reg, s[n - 3], s[n - 1], s[n - 2]],
                                ..p0
                            },
                            None,
                        )
                    } else {
                        (
                            Parse {
                                m: release_reg(m1),
                                stack: s.take(n - 1).push(reg),
                                out: p.out + seq!["="@, reg, s[n - 1]],
                                ..p0
                            },
                            None,
                        )
                    }
                },
            }
        }
    } else {
        (Parse { stack: p.stack.push(w), ..p }, None)
    }
}

/// The words of an assignment, read in turn until one fails.
pub open spec fn assign_fold(p: Parse, ws: Seq<Seq<char>>, calls: bool) -> (Parse, Option<Fault>)
    decreases (if calls {
        2nat
    } else {
        0nat
    }),
        ws.len(),
{
    if ws.len() == 0 {
        (p, None)
    } else {
        let r = assign_step(p, ws[0], calls);
        if r.1 is Some {
            r
        } else {
            assign_fold(r.0, ws.drop_first(), calls)
        }
    }
}

/// VAR $x = expression, $x = expression: the register assignments, then
/// the assignment itself, closed by `0000` unless it ends on an operator.
pub open spec fn handle_assignment(m: Model, line: Seq<char>, calls: bool) -> Outcome
    decreases (if calls {
        2nat
    } else {
        0nat
    }),
        crate::parser::split_syntax(line).len() + 1,
{
    let r = assign_fold(start(mark_ds3(m)), crate::parser::split_syntax(line), calls);
    let p = r.0;
    if r.1 is Some {
        (p.m, r.1)
    } else if p.lp != p.rp {
        (p.m, Some(Fault::MismatchedParentheses(p.lp, p.rp)))
    } else {
        let (m2, toks) = encode_all(p.m, p.out + p.stack);
        let closed = if p.stack.len() > 0 && crate::constants::operator_code(
            p.stack.last(),
        ).is_none() {
            toks.push("0000"@)
        } else {
            toks
        };
        emit_tokens(m2, closed)
    }
}

/// RETURN value: the value goes to `$_f_ret`, then the return opcode.
pub open spec fn handle_return(m: Model, line: Seq<char>) -> Outcome {
    let m0 = Model { return_defined: true, ..mark_ds3(m) };
    let r = handle_assignment(
        m0,
        crate::preprocessor::replace_all(line, "RETURN"@, "VAR $_f_ret ="@),
        true,
    );
    if r.1 is Some {
        r
    } else {
        ok(emit(r.0, seq![0xFDu8, 0xFDu8]))
    }
}

/// Writes the two bytes `b` at each of the positions (when in range).
pub open spec fn patch(out: Seq<u8>, at: Seq<usize>, b: Seq<u8>) -> Seq<u8>
    decreases at.len(),
{
    if at.len() == 0 {
        out
    } else {
        let o = patch(out, at.drop_last(), b);
        let a = at.last() as int;
        let o1 = if a < o.len() {
            o.update(a, b[0])
        } else {
            o
        };
        if a + 1 < o1.len() {
            o1.update(a + 1, b[1])
        } else {
            o1
        }
    }
}

/// Closes the innermost IF chain: its pending jumps now lead here.
pub open spec fn close_if_chain(m: Model) -> Model {
    if m.awaiting.len() > 0 {
        let chain = m.awaiting.last();
        Model {
            awaiting: m.awaiting.drop_last(),
            out: patch(m.out, chain, addr_bytes(m.out.len() / 2)),
            ..m
        }
    } else {
        m
    }
}

/// END_IF: closes the innermost block, and the chain with it when
/// `close_chain`.
pub open spec fn handle_end_if(m: Model, close_chain: bool) -> Model {
    let m0 = mark_ds3(m);
    let m1 = if m0.blocks.len() > 0 {
        emit(
            Model { blocks: m0.blocks.drop_last(), ..m0 },
            seq![0x1Fu8, 0xF4u8] + addr_bytes(m0.blocks.last() as nat),
        )
    } else {
        m0
    };
    if close_chain {
        close_if_chain(m1)
    } else {
        m1
    }
}

/// A jump to the end of the chain whose target comes later.
pub open spec fn jump_to_chain_end(m: Model) -> Model {
    let m1 = emit(mark_ds3(m), seq![0xF8u8, 0xF8u8, 0u8, 0u8]);
    if m1.awaiting.len() > 0 {
        Model {
            awaiting: m1.awaiting.drop_last().push(
                m1.awaiting.last().push((m1.out.len() - 2) as usize),
            ),
            ..m1
        }
    } else {
        m1
    }
}

/// ELSE IF condition THEN.
pub open spec fn handle_else_if(m: Model, line: Seq<char>) -> Outcome {
    handle_if(
        handle_end_if(jump_to_chain_end(m), false),
        crate::preprocessor::replace_all(line, "ELSE IF"@, "IF"@),
        true,
    )
}

/// ELSE.
pub open spec fn handle_else(m: Model) -> Outcome {
    handle_if(handle_end_if(jump_to_chain_end(m), false), "IF TRUE THEN"@, true)
}

/// The label of the loop opened as block `n`.
pub open spec fn while_label(n: u16) -> Seq<char> {
    "generated_while_"@ + numbers::decimal(n as nat)
}

/// WHILE condition: a label at the loop's start, then the condition's block.
pub open spec fn handle_while(m: Model, line: Seq<char>) -> Outcome {
    let m0 = mark_ds3(m);
    let label = while_label(next_block_number(m0.next_block));
    if m0.labels.dom().contains(label) {
        (m0, Some(Fault::DuplicateDefinition(label)))
    } else {
        handle_if(
            Model { labels: m0.labels.insert(label, m0.out.len() as usize), ..m0 },
            crate::preprocessor::replace_all(line, "WHILE"@, "IF"@),
            false,
        )
    }
}

/// END_WHILE: a jump back to the loop's start, then the block's end.
pub open spec fn handle_end_while(m: Model) -> Model {
    let m0 = mark_ds3(m);
    let m1 = if m0.blocks.len() > 0 && m0.labels.dom().contains(while_label(m0.blocks.last())) {
        emit(
            m0,
            seq![0xF8u8, 0xF8u8] + addr_bytes(m0.labels[while_label(m0.blocks.last())] as nat / 2),
        )
    } else {
        m0
    };
    handle_end_if(m1, true)
}

/// FUNCTION name(): a label, then a block that is skipped when reached.
pub open spec fn handle_function_def(m: Model, line: Seq<char>) -> Outcome {
    let m0 = mark_ds3(m);
    if m0.defining_function {
        (m0, Some(Fault::Syntax("Nested functions not allowed"@)))
    } else {
        let m1 = Model { defining_function: true, ..m0 };
        let p = text::words(line);
        if p.len() >= 2 {
            let label = "function_"@ + strip_all_suffix(p[1], "()"@);
            if m1.labels.dom().contains(label) {
                (m1, Some(Fault::DuplicateDefinition(label)))
            } else {
                handle_if(
                    Model { labels: m1.labels.insert(label, m1.out.len() as usize), ..m1 },
                    "IF FALSE THEN"@,
                    false,
                )
            }
        } else {
            ok(m1)
        }
    }
}

/// END_FUNCTION: a `RETURN 0` when the function had no RETURN, then the
/// block's end.
pub open spec fn handle_end_function(m: Model) -> Outcome {
    let m0 = mark_ds3(m);
    let r = if !m0.return_defined {
        handle_return(m0, "RETURN 0"@)
    } else {
        ok(m0)
    };
    if r.1 is Some {
        r
    } else {
        ok(
            handle_end_if(
                Model { return_defined: false, defining_function: false, ..r.0 },
                true,
            ),
        )
    }
}

/// ASCII case-insensitive equality (`eq_ignore_ascii_case`).
#[verifier::opaque]
pub open spec fn eq_ic(a: Seq<char>, b: Seq<char>) -> bool {
    encoder::lower(a) == encoder::lower(b)
}

/// Whether `w`, in ASCII upper case, starts with `p`.
#[verifier::opaque]
pub open spec fn starts_ic(w: Seq<char>, p: Seq<char>) -> bool {
    text::starts_with(encoder::upper(w), p)
}

/// What ATTACKMODE has read so far: its tokens, the mode, and which
/// settings it has seen.
pub struct Attack {
    pub toks: Seq<Seq<char>>,
    pub mode: u16,
    pub mode_defined: bool,
    pub vid: bool,
    pub pid: bool,
    pub man: bool,
    pub prod: bool,
    pub serial: bool,
}

pub open spec fn no_attack() -> Attack {
    Attack {
        toks: Seq::empty(),
        mode: 0,
        mode_defined: false,
        vid: false,
        pid: false,
        man: false,
        prod: false,
        serial: false,
    }
}

/// `k` times the token `t`.
pub open spec fn repeat_token(t: Seq<char>, k: nat) -> Seq<Seq<char>> {
    Seq::new(k, |i: int| t)
}

/// The tokens of a random string setting: the marker, twelve random
/// characters of class `class`, the marker.
pub open spec fn random_string(marker: u16, class: u16) -> Seq<Seq<char>> {
    seq![encoder::hex_encode_spec(marker)] + repeat_token(encoder::hex_encode_spec(class), 12)
        + seq![encoder::hex_encode_spec(marker)]
}

/// The name of the variable that holds the code of a character.
pub open spec fn char_var(c: char) -> Seq<char> {
    "__CHAR_"@ + encoder::hex_encode_spec((c as u32) as u16)
}

/// The addresses of the variables of the characters of `s`, each made on
/// first use.
pub open spec fn char_vars(m: Model, s: Seq<char>) -> (Model, Seq<Seq<char>>)
    decreases s.len(),
{
    if s.len() == 0 {
        (m, Seq::empty())
    } else {
        let (m1, t) = char_vars(m, s.drop_last());
        let name = char_var(s.last());
        let m2 = if m1.vars.dom().contains(name) {
            m1
        } else {
            with_var(m1, name, encoder::hex_encode_spec((s.last() as u32) as u16))
        };
        (m2, t.push(encoder::dec_to_hex_spec(m2.vars[name] as nat)))
    }
}

/// A string setting (MAN_, PROD_, SERIAL_): the marker, the characters'
/// variables, the marker.
pub open spec fn string_setting(m: Model, a: Attack, marker: u16, arg: Seq<char>) -> (Model, Attack) {
    let (m1, t) = char_vars(m, arg);
    (
        m1,
        Attack {
            toks: a.toks + seq![encoder::hex_encode_spec(marker)] + t + seq![
                encoder::hex_encode_spec(marker),
            ],
            ..a
        },
    )
}

/// A VID_/PID_ setting given in hex: the marker, then the address of the
/// variable that holds the value.
pub open spec fn id_setting(m: Model, a: Attack, marker: u16, arg: Seq<char>) -> (Model, Attack) {
    let f = encoder::format_hex_spec(arg);
    let m1 = if m.vars.dom().contains(f) {
        m
    } else {
        with_var(m, f, f)
    };
    (
        m1,
        Attack {
            toks: a.toks + seq![
                encoder::hex_encode_spec(marker),
                encoder::dec_to_hex_spec(m1.vars[f] as nat),
            ],
            ..a
        },
    )
}

/// A VID_$var/PID_$var setting: the marker, then the variable's address.
pub open spec fn id_var_setting(m: Model, a: Attack, marker: u16, var: Seq<char>) -> (
    Attack,
    Option<Fault>,
) {
    let a1 = Attack { toks: a.toks.push(encoder::hex_encode_spec(marker)), ..a };
    if m.vars.dom().contains(var) {
        (
            Attack { toks: a1.toks.push(encoder::dec_to_hex_spec(m.vars[var] as nat)), ..a1 },
            None,
        )
    } else {
        (a1, Some(Fault::UnknownVariable(var)))
    }
}

/// The mode words after ATTACKMODE at position `j`: the attack state and
/// where reading goes on.
pub open spec fn mode_step(a: Attack, parts: Seq<Seq<char>>, j: int) -> (Attack, int) {
    let mode = parts[j];
    let next_is = |w: Seq<char>| j + 1 < parts.len() && eq_ic(parts[j + 1], w);
    let set = |v: u16| Attack { mode: v, mode_defined: true, toks: a.toks.push(encoder::hex_encode_spec(v)), ..a };
    if eq_ic(mode, "OFF"@) {
        (set(0xF0F0), parts.len() as int)
    } else if eq_ic(mode, "HID"@) {
        if next_is("STORAGE"@) {
            (set(0xF3F3), j + 2)
        } else {
            (set(0xF1F1), j + 1)
        }
    } else if eq_ic(mode, "STORAGE"@) {
        if next_is("HID"@) {
            (set(0xF3F3), j + 2)
        } else {
            (set(0xF2F2), j + 1)
        }
    } else {
        (a, j + 1)
    }
}

/// Sets the flag of string setting `k` (0: MAN, 1: PROD, 2: SERIAL).
pub open spec fn set_string_flag(a: Attack, k: nat) -> Attack {
    if k == 0 {
        Attack { man: true, ..a }
    } else if k == 1 {
        Attack { prod: true, ..a }
    } else {
        Attack { serial: true, ..a }
    }
}

/// A random string setting of kind `k`.
pub open spec fn random_word(a: Attack, marker: u16, class: u16, k: nat) -> Attack {
    set_string_flag(Attack { toks: a.toks + random_string(marker, class), ..a }, k)
}

/// A string setting of kind `k` with its value: refused (with `msg`) when
/// empty, longer than `limit` bytes, or, when `digits`, not all digits.
pub open spec fn setting_word(
    m: Model,
    a: Attack,
    arg: Seq<char>,
    marker: u16,
    limit: nat,
    digits: bool,
    msg: Seq<char>,
    k: nat,
) -> (Model, Attack, Option<Fault>) {
    if arg.len() == 0 || text::utf8_len(arg) > limit || (digits && !(forall|i: int|
        0 <= i < arg.len() ==> text::is_ascii_digit(#[trigger] arg[i]))) {
        (m, a, Some(Fault::Syntax(msg)))
    } else {
        let (m1, a1) = string_setting(m, a, marker, arg);
        (m1, set_string_flag(a1, k), None)
    }
}

/// A MAN_, PROD_ or SERIAL_ word of an ATTACKMODE line (any other word is
/// passed over).
pub open spec fn string_word(m: Model, a: Attack, w: Seq<char>) -> (Model, Attack, Option<Fault>) {
    if eq_ic(w, "MAN_RANDOM"@) {
        (m, random_word(a, 0xF9F9, 0x42F5, 0), None)
    } else if starts_ic(w, "MAN_"@) {
        setting_word(m, a, w.skip(4), 0xF9F9, 32, false, "Invalid Manufacturer"@, 0)
    } else if eq_ic(w, "PROD_RANDOM"@) {
        (m, random_word(a, 0xFAFA, 0x42F5, 1), None)
    } else if starts_ic(w, "PROD_"@) {
        setting_word(m, a, w.skip(5), 0xFAFA, 32, false, "Invalid Product"@, 1)
    } else if eq_ic(w, "SERIAL_RANDOM"@) {
        (m, random_word(a, 0xFBFB, 0x42F7, 2), None)
    } else if starts_ic(w, "SERIAL_"@) {
        setting_word(m, a, w.skip(7), 0xFBFB, 12, true, "Invalid Serial"@, 2)
    } else {
        (m, a, None)
    }
}

/// Sets the VID flag, or the PID flag.
pub open spec fn set_id_flag(a: Attack, vid: bool) -> Attack {
    if vid {
        Attack { vid: true, ..a }
    } else {
        Attack { pid: true, ..a }
    }
}

/// A VID_/PID_ setting given in hex, refused when empty.
pub open spec fn hex_id_word(m: Model, a: Attack, arg: Seq<char>, vid: bool) -> (Model, Attack, Option<Fault>) {
    if arg.len() == 0 {
        (m, a, Some(Fault::Syntax(if vid { "Invalid VID"@ } else { "Invalid PID"@ })))
    } else {
        let (m1, a1) = id_setting(m, a, if vid { 0xF5F5 } else { 0xF6F6 }, arg);
        (m1, set_id_flag(a1, vid), None)
    }
}

/// One word of an ATTACKMODE line at position `i`: the state, the fault if
/// the line is refused, and where reading goes on.
pub open spec fn attack_step(m: Model, a: Attack, parts: Seq<Seq<char>>, i: int) -> (
    Model,
    Attack,
    Option<Fault>,
    int,
) {
    let w = parts[i];
    let push2 = |x: u16, y: u16| Attack {
        toks: a.toks + seq![encoder::hex_encode_spec(x), encoder::hex_encode_spec(y)],
        ..a
    };
    if eq_ic(w, "ATTACKMODE"@) {
        if i + 1 >= parts.len() {
            (m, a, None, parts.len() as int)
        } else {
            let (a1, j) = mode_step(a, parts, i + 1);
            (m, a1, None, j)
        }
    } else if eq_ic(w, "VID_RANDOM"@) {
        (m, set_id_flag(push2(0xF5F5, 0x42F3), true), None, i + 1)
    } else if starts_ic(w, "VID_$"@) {
        let (a1, f) = id_var_setting(m, set_id_flag(a, true), 0xF5F5, w.skip(4));
        (m, a1, f, i + 1)
    } else if starts_ic(w, "VID_"@) {
        let (m1, a1, f) = hex_id_word(m, a, w.skip(4), true);
        (m1, a1, f, i + 1)
    } else if eq_ic(w, "PID_RANDOM"@) {
        (m, set_id_flag(push2(0xF6F6, 0x42F3), false), None, i + 1)
    } else if starts_ic(w, "PID_$"@) {
        let (a1, f) = id_var_setting(m, set_id_flag(a, false), 0xF6F6, w.skip(4));
        (m, a1, f, i + 1)
    } else if starts_ic(w, "PID_"@) {
        let (m1, a1, f) = hex_id_word(m, a, w.skip(4), false);
        (m1, a1, f, i + 1)
    } else {
        let (m1, a1, f) = string_word(m, a, w);
        (m1, a1, f, i + 1)
    }
}

/// The words of an ATTACKMODE line from position `i` on, until one is refused.
pub open spec fn attack_from(m: Model, a: Attack, parts: Seq<Seq<char>>, i: int) -> (
    Model,
    Attack,
    Option<Fault>,
)
    decreases parts.len() - i,
{
    if i < 0 || i >= parts.len() {
        (m, a, None)
    } else {
        let (m1, a1, f, j) = attack_step(m, a, parts, i);
        if f is Some || j <= i || j > parts.len() {
            (m1, a1, f)
        } else {
            attack_from(m1, a1, parts, j)
        }
    }
}

/// ATTACKMODE: the mode and the device's identity.
pub open spec fn handle_attackmode(m: Model, line: Seq<char>) -> Outcome {
    let m0 = mark_ds3(m);
    let parts = text::words(line);
    if parts.len() < 2 {
        ok(m0)
    } else {
        let (m1, a, f) = attack_from(m0, no_attack(), parts, 0);
        if f is Some {
            (m1, f)
        } else {
            let toks = if a.mode_defined {
                a.toks.push(encoder::hex_encode_spec(a.mode))
            } else {
                a.toks
            };
            if (a.vid || a.pid) && !(a.vid && a.pid) {
                (m1, Some(Fault::Syntax("VID + PID must both be defined"@)))
            } else if (a.man || a.prod || a.serial) && !(a.man && a.prod && a.serial) {
                (m1, Some(Fault::Syntax("MAN + PROD + SERIAL must all be defined"@)))
            } else {
                emit_tokens(m1, toks)
            }
        }
    }
}

/// The first whitespace character after the first word, when there is one.
pub proof fn lemma_index_of_ws_props(s: Seq<char>)
    ensures
        text::index_of_ws(s) <= s.len(),
        forall|m: int| 0 <= m < text::index_of_ws(s) ==> !text::is_ws(#[trigger] s[m]),
        text::index_of_ws(s) < s.len() ==> text::is_ws(s[text::index_of_ws(s) as int]),
    decreases s.len(),
{
    if s.len() > 0 && !text::is_ws(s[0]) {
        lemma_index_of_ws_props(s.drop_first());
        assert forall|m: int| 0 <= m < text::index_of_ws(s) implies !text::is_ws(#[trigger] s[m]) by {
            if m > 0 {
                assert(s[m] == s.drop_first()[m - 1]);
            }
        }
    }
}

/// What follows the first word of `s` is shorter than `s`.
pub proof fn lemma_words_tail(s: Seq<char>) -> (t: Seq<char>)
    requires
        text::words(s).len() >= 1,
    ensures
        t.len() < s.len(),
        text::words(t) == text::words(s).drop_first(),
    decreases s.len(),
{
    if text::is_ws(s[0]) {
        lemma_words_tail(s.drop_first())
    } else {
        let k = text::index_of_ws(s);
        text::lemma_index_of_ws_bound(s);
        assert((seq![s.take(k as int)] + text::words(s.skip(k as int))).drop_first() =~= text::words(
            s.skip(k as int),
        ));
        s.skip(k as int)
    }
}

/// A word, a space and the rest joined.
pub proof fn lemma_join_prepend(w: Seq<char>, ws: Seq<Seq<char>>)
    requires
        ws.len() >= 1,
    ensures
        preprocessor::join_words(seq![w] + ws) == w + " "@ + preprocessor::join_words(ws),
    decreases ws.len(),
{
    let all = seq![w] + ws;
    assert(all.len() == ws.len() + 1);
    assert(all.drop_last() =~= seq![w] + ws.drop_last());
    assert(all.last() == ws.last());
    assert(preprocessor::join_words(all) == preprocessor::join_words(all.drop_last()) + " "@
        + all.last());
    if ws.len() == 1 {
        assert(seq![w] + ws.drop_last() =~= seq![w]);
        assert(preprocessor::join_words(seq![w]) == w);
        assert(preprocessor::join_words(ws) == ws[0]);
        assert(ws.last() == ws[0]);
    } else {
        lemma_join_prepend(w, ws.drop_last());
        assert(preprocessor::join_words(ws) == preprocessor::join_words(ws.drop_last()) + " "@
            + ws.last());
        assert(w + " "@ + preprocessor::join_words(ws.drop_last()) + " "@ + ws.last() =~= w + " "@
            + (preprocessor::join_words(ws.drop_last()) + " "@ + ws.last()));
    }
}

/// The words of `s` joined with single spaces are no longer than `s`.
pub proof fn lemma_join_words_len(s: Seq<char>)
    ensures
        preprocessor::join_words(text::words(s)).len() <= s.len(),
    decreases s.len(),
{
    if s.len() == 0 {
    } else if text::is_ws(s[0]) {
        lemma_join_words_len(s.drop_first());
    } else {
        let k = text::index_of_ws(s);
        text::lemma_index_of_ws_bound(s);
        lemma_index_of_ws_props(s);
        let rest = text::words(s.skip(k as int));
        assert(text::words(s) == seq![s.take(k as int)] + rest);
        if rest.len() == 0 {
            assert(seq![s.take(k as int)] + rest =~= seq![s.take(k as int)]);
            assert(preprocessor::join_words(seq![s.take(k as int)]) == s.take(k as int));
        } else {
            assert(k < s.len());
            text::lemma_words_skip_ws(s, k as int, k + 1 as int);
            lemma_join_words_len(s.skip(k + 1 as int));
            lemma_join_prepend(s.take(k as int), rest);
            reveal_strlit(" ");
        }
    }
}

/// The words after the first two, joined: the line that REPEAT repeats is
/// shorter than the REPEAT line by at least two characters.
pub proof fn lemma_repeat_shorter(line: Seq<char>)
    requires
        text::words(line).len() >= 3,
    ensures
        preprocessor::join_words(text::words(line).skip(2)).len() + 2 <= line.len(),
{
    let t1 = lemma_words_tail(line);
    let t2 = lemma_words_tail(t1);
    assert(text::words(t2) =~= text::words(line).skip(2));
    lemma_join_words_len(t2);
}

/// `s` without up to `k` leading indents of four spaces.
pub open spec fn strip_indent(s: Seq<char>, k: nat) -> Seq<char>
    decreases k,
{
    if k == 0 {
        s
    } else {
        strip_indent(
            if text::starts_with(s, "    "@) {
                s.skip(4)
            } else {
                s
            },
            (k - 1) as nat,
        )
    }
}

/// One more than the number of leading indents of four spaces.
pub open spec fn indent_level(s: Seq<char>) -> nat
    decreases s.len(),
{
    if s.len() >= 4 && text::starts_with(s, "    "@) {
        1 + indent_level(s.skip(4))
    } else {
        1
    }
}

/// A line inside a STRING or STRINGLN block.
pub open spec fn string_block_line(m: Model, line: Seq<char>) -> Outcome {
    if lexer::is_end_string_spec(text::trim(line)) {
        ok(Model { in_string: false, in_stringln: false, indent: 1, preserve: false, ..m })
    } else {
        let content = if m.in_string && !m.preserve {
            text::trim_start(line)
        } else {
            strip_indent(line, m.indent as nat)
        };
        let r = inject_all(m, content);
        if r.1 is None && m.in_stringln {
            inject_key(r.0, "ENTER"@)
        } else {
            r
        }
    }
}

/// Whether a command line of this kind is remembered for a bare `REPEAT n`
/// (comments and REPEAT itself are not).
pub open spec fn is_command(t: TokenType) -> bool {
    !(t is Repeat || t is Rem || t is Comment)
}

/// The compiler after one line.
pub open spec fn process_line(m: Model, line: Seq<char>) -> Outcome
    decreases 1nat, line.len(), 0nat, 2nat,
{
    if text::trim(line).len() == 0 {
        ok(m)
    } else if m.in_rem {
        ok(
            if lexer::is_end_rem_block_spec(text::trim(line)) {
                Model { in_rem: false, ..m }
            } else {
                m
            },
        )
    } else if m.in_string || m.in_stringln {
        string_block_line(m, line)
    } else {
        let t = lexer::tokenize_spec(text::trim(line));
        if is_command(t) {
            dispatch(Model { last_command: line, ..m }, line, t)
        } else {
            dispatch(m, line, t)
        }
    }
}

/// The remembered command run once more by a bare `REPEAT n`: as
/// `process_line`, except that a REPEAT line (never remembered) does nothing.
pub open spec fn replay_line(m: Model, line: Seq<char>) -> Outcome
    decreases 0nat, line.len(), 0nat, 2nat,
{
    if text::trim(line).len() == 0 {
        ok(m)
    } else if m.in_rem {
        ok(
            if lexer::is_end_rem_block_spec(text::trim(line)) {
                Model { in_rem: false, ..m }
            } else {
                m
            },
        )
    } else if m.in_string || m.in_stringln {
        string_block_line(m, line)
    } else {
        let t = lexer::tokenize_spec(text::trim(line));
        if t is Repeat {
            ok(m)
        } else {
            dispatch(m, line, t)
        }
    }
}

/// `line` replayed `n` times, stopping at the first failure.
pub open spec fn replay_n(m: Model, line: Seq<char>, n: nat) -> Outcome
    decreases 0nat, line.len() + 1, n, 0nat,
{
    if n == 0 {
        ok(m)
    } else {
        let r = replay_line(m, line);
        if r.1 is Some {
            r
        } else {
            replay_n(r.0, line, (n - 1) as nat)
        }
    }
}

/// REPEAT n: with a command after the count, that command n times;
/// alone, the last command n more times.
pub open spec fn handle_repeat(m: Model, line: Seq<char>) -> Outcome
    decreases 1nat, line.len(), 0nat, 0nat,
{
    let p = text::words(line);
    if p.len() < 2 {
        ok(m)
    } else {
        match numbers::parse_unsigned(p[1], usize::MAX as nat) {
            Some(count) => if p.len() == 2 {
                replay_n(m, m.last_command, count)
            } else {
                proof {
                    lemma_repeat_shorter(line);
                }
                repeat_n(m, preprocessor::join_words(p.skip(2)), count)
            },
            None => ok(m),
        }
    }
}

/// `line` processed `n` times, stopping at the first failure.
pub open spec fn repeat_n(m: Model, line: Seq<char>, n: nat) -> Outcome
    decreases 1nat, line.len() + 1, n, 0nat,
{
    if n == 0 {
        ok(m)
    } else {
        let r = process_line(m, line);
        if r.1 is Some {
            r
        } else {
            repeat_n(r.0, line, (n - 1) as nat)
        }
    }
}

/// A command, by its kind.
pub open spec fn dispatch(m: Model, line: Seq<char>, t: TokenType) -> Outcome
    decreases (if t is Repeat { 1nat } else { 0nat }), line.len(), 0nat, 1nat,
{
    match t {
        TokenType::RemBlock => ok(Model { in_rem: true, ..m }),
        TokenType::EndRemBlock => ok(Model { in_rem: false, ..m }),
        TokenType::Delay => handle_delay(m, line),
        TokenType::DelayVar => handle_var_command(m, line, 0xE9E7),
        TokenType::DefaultDelay => handle_default_delay(m, line),
        TokenType::String => handle_string(m, line),
        TokenType::StringLn => handle_stringln(m, line),
        TokenType::StringBlock => ok(
            Model {
                in_string: true,
                preserve: text::contains(encoder::upper(line), "PYTHON"@),
                indent: indent_level(line) as usize,
                ..m
            },
        ),
        TokenType::StringLnBlock => ok(
            Model { in_stringln: true, preserve: false, indent: indent_level(line) as usize, ..m },
        ),
        TokenType::EndString => ok(
            Model { in_string: false, in_stringln: false, indent: 1, preserve: false, ..m },
        ),
        TokenType::If => handle_if(m, line, false),
        TokenType::ElseIf => handle_else_if(m, line),
        TokenType::Else => handle_else(m),
        TokenType::EndIf => ok(handle_end_if(m, true)),
        TokenType::While => handle_while(m, line),
        TokenType::EndWhile => ok(handle_end_while(m)),
        TokenType::Assignment => handle_assignment(m, line, true),
        TokenType::Declaration => handle_assignment(m, line, true),
        TokenType::Function => handle_function_def(m, line),
        TokenType::EndFunction => handle_end_function(m),
        TokenType::FunctionCall => handle_function_call(m, line),
        TokenType::Return => handle_return(m, line),
        TokenType::Enter => inject_key(m, "ENTER"@),
        TokenType::Repeat => handle_repeat(m, line),
        TokenType::Hold => handle_hold(m, line),
        TokenType::Release => handle_release(m, line),
        TokenType::Inject => handle_inject(m, line),
        TokenType::InjectMod => handle_inject_mod(m, line),
        TokenType::InjectVar => handle_var_command(m, line, 0xE9E9),
        TokenType::Keycode => handle_inject(m, line),
        TokenType::ExfilVar => handle_exfil(m, line),
        TokenType::ModKeyDown => handle_two_operands(m, line, 0xEA0D),
        TokenType::ModKeyUp => handle_two_operands(m, line, 0xEA0E),
        TokenType::KeyDown => handle_one_operand(m, line, 0xEA0A),
        TokenType::KeyUp => handle_one_operand(m, line, 0xEA0B),
        TokenType::ModDown => handle_one_operand(m, line, 0xEA0C),
        TokenType::ModUp => handle_one_operand(m, line, 0xEA0F),
        TokenType::Modifier => handle_modifier(m, line),
        TokenType::ButtonDef => handle_button_def(m),
        TokenType::EndButtonDef => handle_end_button_def(m),
        TokenType::Attackmode => handle_attackmode(m, line),
        TokenType::RandomLowercaseLetter => handle_random(m, 0x42FA),
        TokenType::RandomUppercaseLetter => handle_random(m, 0x42FB),
        TokenType::RandomNumber => handle_random(m, 0x42FC),
        TokenType::RandomLetter => handle_random(m, 0x42FF),
        TokenType::RandomSpecial => handle_random(m, 0x42FD),
        TokenType::RandomChar => handle_random(m, 0x42FE),
        TokenType::Breakpoint => handle_breakpoint(m),
        TokenType::InjectBreakpointLineNumber => handle_inject_line_number(m),
        TokenType::Unknown => handle_unknown(m, line),
        _ => ok(m),
    }
}

/// The characters of the language pack.
pub open spec fn lang_chars() -> Seq<char> {
    "abcdefghijklmnopqrstuvwxyz1234567890"@
}

/// The variable that holds how the layout types one character with SHIFT
/// (none when the layout lacks it or its codes are not hex).
pub open spec fn lang_entry(m: Model, shift: Seq<char>, c: char) -> Model {
    match codes(m, seq![c]) {
        Some(k) => if k.len() >= 3 && numbers::parse_hex(shift, 255).is_some()
            && numbers::parse_hex(k[2], 255).is_some() {
            with_var(
                m,
                "LANG_"@ + seq![c],
                encoder::hex_encode_spec(
                    (numbers::parse_hex(shift, 255).unwrap() * 256 + numbers::parse_hex(
                        k[2],
                        255,
                    ).unwrap()) as u16,
                ),
            )
        } else {
            m
        },
        None => m,
    }
}

/// The language-pack variables of the characters of `cs`, in order.
pub open spec fn lang_fold(m: Model, shift: Seq<char>, cs: Seq<char>) -> Model
    decreases cs.len(),
{
    if cs.len() == 0 {
        m
    } else {
        lang_entry(lang_fold(m, shift, cs.drop_last()), shift, cs.last())
    }
}

/// The first code of SHIFT, `02` when the layout lacks it.
pub open spec fn shift_code(m: Model) -> Seq<char> {
    match codes(m, "SHIFT"@) {
        Some(c) => if c.len() >= 1 {
            c[0]
        } else {
            "02"@
        },
        None => "02"@,
    }
}

/// The language pack: a marker variable, then a variable per character.
pub open spec fn generate_lang_pack(m: Model) -> Model {
    lang_fold(with_var(m, "LANG_MARKER"@, encoder::hex_encode_spec(0xEEEE)), shift_code(m), lang_chars())
}

/// The bytes of the values, each padded or cut to four hex digits.
pub open spec fn value_bytes(values: Seq<Seq<char>>) -> Seq<u8>
    decreases values.len(),
{
    if values.len() == 0 {
        Seq::empty()
    } else {
        value_bytes(values.drop_last()) + encoder::string_bytes(encoder::normalize_str(values.last()))
    }
}

/// The output with the variables' initial values in front, and the number
/// of 16-bit words that moves the code by.
pub open spec fn with_header(m: Model) -> (Model, nat) {
    if m.values.len() > 1 {
        (
            Model {
                out: seq![0xE8u8, 0xE8u8] + value_bytes(m.values.skip(1)) + seq![0xE8u8, 0xE8u8]
                    + m.out,
                ..m
            },
            m.values.len() + 1,
        )
    } else {
        (m, 0)
    }
}

/// A zero byte added to an odd number of bytes.
pub open spec fn pad_even(b: Seq<u8>) -> Seq<u8> {
    if b.len() % 2 == 1 {
        b.push(0)
    } else {
        b
    }
}

/// Each 16-bit word from byte `i` on that follows a jump or call marker
/// (`F8F8`, `F7F7`) moved by `shift` words: the target is read high byte
/// first and written low byte first.
pub open spec fn relocate(b: Seq<u8>, i: int, shift: nat) -> Seq<u8>
    decreases b.len() - i,
{
    if i < 0 || i + 4 > b.len() {
        b
    } else if (b[i] == 0xF8 && b[i + 1] == 0xF8) || (b[i] == 0xF7 && b[i + 1] == 0xF7) {
        let v = (b[i + 2] as nat * 256 + b[i + 3] as nat + shift) % 65536;
        relocate(b.update(i + 2, (v % 256) as u8).update(i + 3, (v / 256) as u8), i + 4, shift)
    } else {
        relocate(b, i + 2, shift)
    }
}

/// The compiler once the payload is complete, and the payload.
pub open spec fn finalize(m: Model) -> (Model, Seq<u8>) {
    let m1 = if m.lang_pack {
        generate_lang_pack(m)
    } else {
        m
    };
    let (m2, shift) = with_header(m1);
    (m2, relocate(pad_even(m2.out), 0, shift))
}

/// After each line: the default delay when it applies, and every register free.
pub open spec fn after_line(m: Model, line: Seq<char>) -> Model {
    let m1 = match pending_delay(m) {
        Some(ts) => emit(m, encoder::tokens_bytes(ts)),
        None => m,
    };
    Model { free_regs: m1.total_regs, previous_line: line, ..m1 }
}

/// What one line does (`process_line`, kept folded where only its outcome
/// matters).
#[verifier::opaque]
pub open spec fn line_outcome(m: Model, line: Seq<char>) -> Outcome {
    process_line(m, line)
}

/// The state the compiler starts in, with a keyboard layout.
pub open spec fn initial(layout: Map<Seq<char>, Seq<char>>) -> Model {
    Model {
        vars: Map::empty(),
        values: seq![crate::parser::values_marker()],
        labels: Map::empty(),
        blocks: Seq::empty(),
        current_block: 0,
        next_block: 0,
        total_regs: 0,
        free_regs: 0,
        lang_pack: false,
        layout,
        out: Seq::empty(),
        ds3: false,
        default_delay: 0,
        delay_override: false,
        line_index: 0,
        in_string: false,
        in_stringln: false,
        indent: 1,
        preserve: false,
        in_rem: false,
        awaiting: Seq::empty(),
        pending_calls: Seq::empty(),
        defining_function: false,
        return_defined: false,
        defining_button: 0,
        buttons: Seq::empty(),
        modifier_queue: Seq::empty(),
        last_command: Seq::empty(),
        current_line: Seq::empty(),
        previous_line: Seq::empty(),
    }
}

/// Line `i` of the program, with the faults met so far: the compiler after
/// it, the faults, and whether to go on (0), stop after more than 50 errors
/// counting the `base` ones reported before (1), or stop because the payload
/// grew too large (2).
pub open spec fn line_step(
    m: Model,
    line: Seq<char>,
    i: nat,
    faults: Seq<(Fault, usize)>,
    base: nat,
) -> (Model, Seq<(Fault, usize)>, nat) {
    let r = line_outcome(Model { line_index: i as usize, current_line: line, ..m }, line);
    let f1 = match r.1 {
        Some(f) => faults.push((f, i as usize)),
        None => faults,
    };
    if r.1 is Some && base + f1.len() > 50 {
        (r.0, f1, 1)
    } else {
        let m2 = after_line(r.0, line);
        if m2.out.len() > crate::constants::MAX_PAYLOAD_SIZE {
            (m2, f1, 2)
        } else {
            (m2, f1, 0)
        }
    }
}

/// The lines from `i` on: the compiler after them, the faults met (with
/// their lines), and whether the payload grew too large.
pub open spec fn run_lines(
    m: Model,
    lines: Seq<Seq<char>>,
    i: nat,
    faults: Seq<(Fault, usize)>,
    base: nat,
) -> (Model, Seq<(Fault, usize)>, bool)
    decreases lines.len() - i,
{
    if i >= lines.len() {
        (m, faults, false)
    } else {
        let (m1, f1, st) = line_step(m, lines[i as int], i, faults, base);
        if st == 0 {
            run_lines(m1, lines, i + 1, f1, base)
        } else {
            (m1, f1, st == 2)
        }
    }
}

/// The source without carriage returns.
pub open spec fn sanitize(s: Seq<char>) -> Seq<char> {
    s.filter(|c: char| c != '\r')
}

/// The lines the compiler reads: the source's lines with conditional
/// blocks resolved and names replaced, given the definitions.
pub open spec fn prepared_lines(defs: Seq<(Seq<char>, Seq<char>)>, lines: Seq<Seq<char>>) -> (
    Seq<Seq<char>>,
    Seq<preprocessor::Replacement>,
) {
    preprocessor::process_from(
        defs,
        preprocessor::ifdefs_from(defs, lines, 0, Seq::empty()),
        0,
        preprocessor::initial_process_state(),
    )
}

} // verus!
